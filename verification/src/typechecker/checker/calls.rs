//! Calls and lists of arguments.
use vstd::prelude::*;

use crate::lexer::lang_type::LangType;
use crate::lexer::position::Position;
use crate::parser::ast::exprs_model;
use crate::parser::ast::ExprModel;
use crate::parser::ast::Expression;
use crate::symbol::module::Visibility;
use crate::text::chars_of;
use crate::text::index_of;
use crate::text::string_of;
use crate::typechecker::checker::TypeChecker;
use crate::typechecker::errors::TypeCheckError;
use crate::typechecker::measure::all_calls;
use crate::typechecker::measure::lemma_element;
use crate::typechecker::measure::sizes;
use crate::typechecker::rules;
use crate::typechecker::rules::method_access;
use crate::typechecker::rules::param_types;

verus! {

broadcast use crate::parser::ast::group_ast_models;

/// The types of a parameter list.
fn types_of(params: &Vec<(LangType, String)>) -> (r: Vec<LangType>)
    ensures
        r@ == param_types(params.deep_view()),
{
    let mut out: Vec<LangType> = Vec::new();
    let mut i: usize = 0;
    while i < params.len()
        invariant
            i <= params@.len(),
            out@ == param_types(params.deep_view()).take(i as int),
        decreases params@.len() - i,
    {
        out.push(params[i].0);
        i = i + 1;
        assert(param_types(params.deep_view()).take(i as int) =~= param_types(
            params.deep_view(),
        ).take(i - 1).push(params@[i - 1].0));
    }
    assert(param_types(params.deep_view()).take(i as int) =~= param_types(params.deep_view()));
    out
}

impl TypeChecker {
    /// Look at each expression, whatever its type.
    pub fn synth_all(&mut self, items: &mut Vec<Expression>)
        requires
            old(self).wf(),
        ensures
            final(self).follows(*old(self)),
            (final(self).state(), exprs_model(final(items)@)) == rules::synth_all(
                old(self).state(),
                exprs_model(old(items)@),
            ),
            all_calls(exprs_model(final(items)@)) <= all_calls(exprs_model(old(items)@)),
            final(items)@.len() == old(items)@.len(),
        decreases all_calls(exprs_model(old(items)@)), sizes(exprs_model(old(items)@)), 2nat,
    {
        let ghost start = exprs_model(items@);
        let mut i: usize = 0;
        assert(start.take(0) =~= Seq::<ExprModel>::empty());
        while i < items.len()
            invariant
                i <= items@.len(),
                items@.len() == start.len(),
                start == exprs_model(old(items)@),
                self.follows(*old(self)),
                (self.state(), exprs_model(items@).take(i as int)) == rules::synth_all(
                    old(self).state(),
                    start.take(i as int),
                ),
                forall|j: int| i <= j < start.len() ==> exprs_model(items@)[j] == start[j],
                all_calls(exprs_model(items@).take(i as int)) <= all_calls(start.take(i as int)),
            decreases items@.len() - i,
        {
            let ghost before = exprs_model(items@);
            proof {
                lemma_element(start, i as int);
                assert(before[i as int] == start[i as int]);
            }
            let _ = self.synth_expression(&mut items[i]);
            i = i + 1;
            proof {
                let after = exprs_model(items@);
                assert(after.take(i as int) =~= before.take(i - 1).push(after[i - 1]));
                assert(after.take(i as int).drop_last() =~= before.take(i - 1));
                assert(start.take(i as int).drop_last() =~= start.take(i - 1));
            }
        }
        assert(exprs_model(items@).take(i as int) =~= exprs_model(items@));
        assert(start.take(i as int) =~= start);
    }

    /// Hold each expression against one type.
    pub fn check_all(&mut self, items: &mut Vec<Expression>, target: &LangType)
        requires
            old(self).wf(),
        ensures
            final(self).follows(*old(self)),
            (final(self).state(), exprs_model(final(items)@)) == rules::check_all(
                old(self).state(),
                exprs_model(old(items)@),
                *target,
            ),
            all_calls(exprs_model(final(items)@)) <= all_calls(exprs_model(old(items)@)),
            final(items)@.len() == old(items)@.len(),
        decreases all_calls(exprs_model(old(items)@)), sizes(exprs_model(old(items)@)), 2nat,
    {
        let ghost start = exprs_model(items@);
        let mut i: usize = 0;
        assert(start.take(0) =~= Seq::<ExprModel>::empty());
        while i < items.len()
            invariant
                i <= items@.len(),
                items@.len() == start.len(),
                start == exprs_model(old(items)@),
                self.follows(*old(self)),
                (self.state(), exprs_model(items@).take(i as int)) == rules::check_all(
                    old(self).state(),
                    start.take(i as int),
                *target,
                ),
                forall|j: int| i <= j < start.len() ==> exprs_model(items@)[j] == start[j],
                all_calls(exprs_model(items@).take(i as int)) <= all_calls(start.take(i as int)),
            decreases items@.len() - i,
        {
            let ghost before = exprs_model(items@);
            proof {
                lemma_element(start, i as int);
                assert(before[i as int] == start[i as int]);
            }
            self.check_expression(&mut items[i], target);
            i = i + 1;
            proof {
                let after = exprs_model(items@);
                assert(after.take(i as int) =~= before.take(i - 1).push(after[i - 1]));
                assert(after.take(i as int).drop_last() =~= before.take(i - 1));
                assert(start.take(i as int).drop_last() =~= start.take(i - 1));
            }
        }
        assert(exprs_model(items@).take(i as int) =~= exprs_model(items@));
        assert(start.take(i as int) =~= start);
    }

    /// Hold each expression against the type at its index.
    pub fn check_pairs(&mut self, items: &mut Vec<Expression>, types: &Vec<LangType>)
        requires
            old(self).wf(),
        ensures
            final(self).follows(*old(self)),
            (final(self).state(), exprs_model(final(items)@)) == rules::check_pairs(
                old(self).state(),
                types@,
                exprs_model(old(items)@),
            ),
            all_calls(exprs_model(final(items)@)) <= all_calls(exprs_model(old(items)@)),
            final(items)@.len() == old(items)@.len(),
        decreases all_calls(exprs_model(old(items)@)), sizes(exprs_model(old(items)@)), 2nat,
    {
        let ghost start = exprs_model(items@);
        let mut i: usize = 0;
        assert(start.take(0) =~= Seq::<ExprModel>::empty());
        while i < items.len()
            invariant
                i <= items@.len(),
                items@.len() == start.len(),
                start == exprs_model(old(items)@),
                self.follows(*old(self)),
                (self.state(), exprs_model(items@).take(i as int)) == rules::check_pairs(
                    old(self).state(),
                types@,
                    start.take(i as int),
                ),
                forall|j: int| i <= j < start.len() ==> exprs_model(items@)[j] == start[j],
                all_calls(exprs_model(items@).take(i as int)) <= all_calls(start.take(i as int)),
            decreases items@.len() - i,
        {
            let ghost before = exprs_model(items@);
            proof {
                lemma_element(start, i as int);
                assert(before[i as int] == start[i as int]);
            }
            if i < types.len() {
                let ty = types[i];
                self.check_expression(&mut items[i], &ty);
            }
            i = i + 1;
            proof {
                let after = exprs_model(items@);
                assert(after.take(i as int) =~= before.take(i - 1).push(after[i - 1]));
                assert(after.take(i as int).drop_last() =~= before.take(i - 1));
                assert(start.take(i as int).drop_last() =~= start.take(i - 1));
            }
        }
        assert(exprs_model(items@).take(i as int) =~= exprs_model(items@));
        assert(start.take(i as int) =~= start);
    }

    /// A private method is for the methods of its own type.
    fn check_method_access(&mut self, name: &str, pos: Position)
        requires
            old(self).wf(),
        ensures
            final(self).follows(*old(self)),
            final(self).state() == method_access(old(self).state(), name@, pos),
    {
        proof {
            reveal(rules::method_access);
        }
        let chars = chars_of(name);
        let at: usize = index_of(&chars, '$');
        if at == chars.len() {
            return ;
        }
        let owner = string_of(&chars, 0, at);
        let method = string_of(&chars, at + 1, chars.len());
        proof {
            assert(owner@ =~= name@.take(at as int));
            assert(method@ =~= name@.skip(at + 1));
        }
        let id = match self.symbols.struct_id(owner.as_str()) {
            Some(id) => id,
            None => return ,
        };
        let vis = match self.symbols.method(id, method.as_str()) {
            Some(sig) => sig.vis,
            None => return ,
        };
        if vis == Visibility::Private && !self.is_inside_struct_methods(id) {
            self.report(TypeCheckError::InaccessibleMethod { method, owner, position: pos });
        }
    }

    /// Arguments against parameters; on a wrong number each argument is still
    /// looked at.
    pub fn check_call_args(
        &mut self,
        params: &Vec<LangType>,
        args: &mut Vec<Expression>,
        name: &str,
        pos: Position,
    )
        requires
            old(self).wf(),
        ensures
            final(self).follows(*old(self)),
            (final(self).state(), exprs_model(final(args)@)) == rules::call_args(
                old(self).state(),
                params@,
                exprs_model(old(args)@),
                name@,
                pos,
            ),
            all_calls(exprs_model(final(args)@)) <= all_calls(exprs_model(old(args)@)),
        decreases all_calls(exprs_model(old(args)@)), sizes(exprs_model(old(args)@)), 3nat,
    {
        if params.len() != args.len() {
            self.report(
                TypeCheckError::ArgumentCountMismatch {
                    name: name.to_owned(),
                    expected: params.len(),
                    found: args.len(),
                    position: pos,
                },
            );
            self.synth_all(args);
        } else {
            self.check_pairs(args, params);
        }
    }

    /// A call of the function called `name`.
    pub fn check_call(&mut self, name: &str, args: &mut Vec<Expression>, pos: Position)
        requires
            old(self).wf(),
        ensures
            final(self).follows(*old(self)),
            (final(self).state(), exprs_model(final(args)@)) == rules::call(
                old(self).state(),
                name@,
                exprs_model(old(args)@),
                pos,
            ),
            all_calls(exprs_model(final(args)@)) <= all_calls(exprs_model(old(args)@)),
        decreases all_calls(exprs_model(old(args)@)), sizes(exprs_model(old(args)@)), 4nat,
    {
        self.check_method_access(name, pos);
        let params = match self.symbols.lookup_function(name) {
            Some(sig) => Some(types_of(&sig.params)),
            None => None,
        };
        match params {
            Some(types) => self.check_call_args(&types, args, name, pos),
            None => {
                self.report(TypeCheckError::UndefinedFunction(name.to_owned(), pos));
                self.synth_all(args);
            },
        }
    }
}

} // verus!
