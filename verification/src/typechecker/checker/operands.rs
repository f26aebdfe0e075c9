//! The register contract of an `asm fn`.
use vstd::prelude::*;

use crate::lexer::lang_type::LangType;
use crate::lexer::position::Position;
use crate::parser::ast::AsmReg;
use crate::parser::ast::AsmSpec;
use crate::parser::ast::FunctionProto;
use crate::registers::is_reserved_family;
use crate::registers::lookup_register;
use crate::registers::pointer_width_bits;
use crate::registers::RegFamily;
use crate::registers::RegInfo;
use crate::text::push_item;
use crate::text::same;
use crate::typechecker::checker::TypeChecker;
use crate::typechecker::errors::TypeCheckError;
use crate::typechecker::operands::bank_of;
use crate::typechecker::operands::clobbered;
use crate::typechecker::operands::contract;
use crate::typechecker::operands::is_pinnable;
use crate::typechecker::operands::modelled_arch;
use crate::typechecker::operands::owner_of;
use crate::typechecker::operands::pin;
use crate::typechecker::operands::pin_params;
use crate::typechecker::operands::pin_result;
use crate::typechecker::operands::pin_type;
use crate::typechecker::operands::pin_types;
use crate::typechecker::operands::resolve;

verus! {

/// The clobber that names no register.
pub const MEMORY_CLOBBER: &'static str = "memory";

/// The place of the first parameter that has a family.
fn find_owner(taken: &Vec<(RegFamily, String)>, family: RegFamily) -> (r: Option<usize>)
    ensures
        match r {
            Some(i) => i < taken@.len() && owner_of(taken.deep_view(), family) == Some(
                taken@[i as int].1@,
            ),
            None => owner_of(taken.deep_view(), family) is None,
        },
{
    let ghost all = taken.deep_view();
    let mut i: usize = 0;
    assert(all.skip(0) =~= all);
    while i < taken.len()
        invariant
            i <= taken@.len(),
            all == taken.deep_view(),
            owner_of(all, family) == owner_of(all.skip(i as int), family),
        decreases taken@.len() - i,
    {
        assert(all.skip(i as int)[0] == all[i as int]);
        assert(all.skip(i as int).skip(1) =~= all.skip(i as int + 1));
        if taken[i].0 == family {
            return Some(i);
        }
        i = i + 1;
    }
    None
}

fn has_family(taken: &Vec<RegFamily>, family: RegFamily) -> (r: bool)
    ensures
        r == taken@.contains(family),
{
    let mut i: usize = 0;
    while i < taken.len()
        invariant
            i <= taken@.len(),
            forall|j: int| 0 <= j < i ==> taken@[j] != family,
        decreases taken@.len() - i,
    {
        if taken[i] == family {
            return true;
        }
        i = i + 1;
    }
    false
}

impl TypeChecker {
    /// The register that a name names; report one that is unknown or reserved.
    fn resolve_asm_reg(&mut self, arch: &str, reg: &AsmReg) -> (r: Option<RegInfo>)
        requires
            old(self).wf(),
        ensures
            final(self).follows(*old(self)),
            (final(self).state(), r) == resolve(old(self).state(), arch@, reg.deep_view()),
    {
        match lookup_register(arch, reg.name.as_str()) {
            None => {
                self.report(
                    TypeCheckError::AsmUnknownRegister {
                        register: reg.name.clone(),
                        arch: arch.to_owned(),
                        position: reg.pos,
                    },
                );
                None
            },
            Some(info) => {
                if is_reserved_family(info.family) {
                    self.report(
                        TypeCheckError::AsmReservedRegister {
                            register: reg.name.clone(),
                            position: reg.pos,
                        },
                    );
                    None
                } else {
                    Some(info)
                }
            },
        }
    }

    /// Report a type that no register holds.
    fn check_pinnable_type(&mut self, ty: LangType, pos: Position)
        requires
            old(self).wf(),
        ensures
            final(self).follows(*old(self)),
            final(self).state() == pin_type(old(self).state(), ty, pos),
    {
        if !is_pinnable(ty) {
            let found = self.ty_text(&ty);
            self.report(TypeCheckError::AsmUnpinnableType { found, position: pos });
        }
    }

    /// Report an operand in the wrong bank, and one wider than its register.
    fn check_register(&mut self, arch: &str, ty: LangType, info: &RegInfo, reg: &AsmReg)
        requires
            old(self).wf(),
        ensures
            final(self).follows(*old(self)),
            final(self).state() == pin(old(self).state(), arch@, ty, *info, reg.deep_view()),
    {
        self.check_register_class(ty, info, reg);
        self.check_register_fits(arch, ty, info, reg);
    }

    fn check_register_class(&mut self, ty: LangType, info: &RegInfo, reg: &AsmReg)
        requires
            old(self).wf(),
        ensures
            final(self).follows(*old(self)),
            final(self).state() == old(self).state().report_if(
                info.class != bank_of(ty),
                TypeCheckError::AsmRegisterClassMismatch {
                    found: crate::typechecker::rules::type_text(old(self).state().symbols, ty),
                    register: reg.name@,
                    expected: crate::registers::class_text(bank_of(ty)),
                    actual: crate::registers::class_text(info.class),
                    position: reg.pos,
                },
            ),
    {
        let expected = bank_of(ty);
        if info.class != expected {
            let found = self.ty_text(&ty);
            self.report(
                TypeCheckError::AsmRegisterClassMismatch {
                    found,
                    register: reg.name.clone(),
                    expected: expected.describe().to_owned(),
                    actual: info.class.describe().to_owned(),
                    position: reg.pos,
                },
            );
        }
    }

    fn check_register_fits(&mut self, arch: &str, ty: LangType, info: &RegInfo, reg: &AsmReg)
        requires
            old(self).wf(),
        ensures
            final(self).follows(*old(self)),
            final(self).state() == old(self).state().report_if(
                crate::typechecker::operands::operand_bits(arch@, ty) > info.width_bits,
                TypeCheckError::AsmRegisterTooNarrow {
                    found: crate::typechecker::rules::type_text(old(self).state().symbols, ty),
                    type_bits: crate::typechecker::operands::operand_bits(arch@, ty),
                    register: reg.name@,
                    reg_bits: info.width_bits,
                    position: reg.pos,
                },
            ),
    {
        let type_bits: u32 = if ty.is_pointer_like() {
            pointer_width_bits(arch)
        } else {
            ty.size_bits
        };
        if type_bits > info.width_bits {
            let found = self.ty_text(&ty);
            self.report(
                TypeCheckError::AsmRegisterTooNarrow {
                    found,
                    type_bits,
                    register: reg.name.clone(),
                    reg_bits: info.width_bits,
                    position: reg.pos,
                },
            );
        }
    }

    /// Every parameter's type.
    fn check_pinnable_params(&mut self, proto: &FunctionProto)
        requires
            old(self).wf(),
        ensures
            final(self).follows(*old(self)),
            final(self).state() == pin_types(
                old(self).state(),
                proto.params.deep_view(),
                proto.pos,
            ),
    {
        let ghost all = proto.params.deep_view();
        let mut i: usize = 0;
        while i < proto.params.len()
            invariant
                i <= proto.params@.len(),
                all == proto.params.deep_view(),
                self.follows(*old(self)),
                self.state() == pin_types(old(self).state(), all.take(i as int), proto.pos),
            decreases proto.params@.len() - i,
        {
            assert(all.take(i as int + 1).drop_last() =~= all.take(i as int));
            assert(all.take(i as int + 1).last() == all[i as int]);
            self.check_pinnable_type(proto.params[i].0, proto.pos);
            i = i + 1;
        }
        assert(all.take(i as int) =~= all);
    }

    /// Each parameter with its register, and the families they take.
    fn check_param_regs(&mut self, arch: &str, proto: &FunctionProto, body: &AsmSpec) -> (r: Vec<
        (RegFamily, String),
    >)
        requires
            old(self).wf(),
        ensures
            final(self).follows(*old(self)),
            (final(self).state(), r.deep_view()) == pin_params(
                old(self).state(),
                arch@,
                body.param_regs.deep_view(),
                proto.params.deep_view(),
                if body.param_regs@.len() <= proto.params@.len() {
                    body.param_regs@.len()
                } else {
                    proto.params@.len()
                },
            ),
    {
        let mut taken: Vec<(RegFamily, String)> = Vec::new();
        assert(taken.deep_view() =~= Seq::empty());
        let mut i: usize = 0;
        while i < body.param_regs.len() && i < proto.params.len()
            invariant
                i <= body.param_regs@.len(),
                i <= proto.params@.len(),
                self.follows(*old(self)),
                (self.state(), taken.deep_view()) == pin_params(
                    old(self).state(),
                    arch@,
                    body.param_regs.deep_view(),
                    proto.params.deep_view(),
                    i as nat,
                ),
            decreases body.param_regs@.len() - i,
        {
            let reg = &body.param_regs[i];
            let ty = proto.params[i].0;
            assert(body.param_regs.deep_view()[i as int] == reg.deep_view());
            assert(proto.params.deep_view()[i as int] == (ty, proto.params@[i as int].1@));
            if let Some(info) = self.resolve_asm_reg(arch, reg) {
                self.check_register(arch, ty, &info, reg);
                match find_owner(&taken, info.family) {
                    Some(at) => {
                        let param = taken[at].1.clone();
                        self.report(
                            TypeCheckError::AsmDuplicateRegister {
                                register: reg.name.clone(),
                                param,
                                position: reg.pos,
                            },
                        );
                    },
                    None => {
                        push_item(&mut taken, (info.family, proto.params[i].1.clone()));
                    },
                }
            }
            i = i + 1;
        }
        taken
    }

    /// The register of the result.
    fn check_return_reg(&mut self, arch: &str, proto: &FunctionProto, body: &AsmSpec) -> (r: Option<
        RegFamily,
    >)
        requires
            old(self).wf(),
        ensures
            final(self).follows(*old(self)),
            (final(self).state(), r) == pin_result(
                old(self).state(),
                arch@,
                body.return_reg.deep_view(),
                proto.return_type,
            ),
    {
        match &body.return_reg {
            None => None,
            Some(reg) => match self.resolve_asm_reg(arch, reg) {
                None => None,
                Some(info) => {
                    if !proto.return_type.is_void_value() {
                        self.check_register(arch, proto.return_type, &info, reg);
                    }
                    Some(info.family)
                },
            },
        }
    }

    /// The clobbers in order.
    fn check_clobbers(
        &mut self,
        arch: &str,
        body: &AsmSpec,
        params: &Vec<(RegFamily, String)>,
        result: Option<RegFamily>,
    )
        requires
            old(self).wf(),
        ensures
            final(self).follows(*old(self)),
            final(self).state() == clobbered(
                old(self).state(),
                arch@,
                body.clobbers.deep_view(),
                params.deep_view(),
                result,
            ).0,
    {
        let ghost all = body.clobbers.deep_view();
        let mut taken: Vec<RegFamily> = Vec::new();
        let mut memory = false;
        let mut i: usize = 0;
        while i < body.clobbers.len()
            invariant
                i <= body.clobbers@.len(),
                all == body.clobbers.deep_view(),
                self.follows(*old(self)),
                (self.state(), memory, taken@) == clobbered(
                    old(self).state(),
                    arch@,
                    all.take(i as int),
                    params.deep_view(),
                    result,
                ),
            decreases body.clobbers@.len() - i,
        {
            let reg = &body.clobbers[i];
            assert(all.take(i as int + 1).drop_last() =~= all.take(i as int));
            assert(all.take(i as int + 1).last() == reg.deep_view());
            i = i + 1;
            if same(reg.name.as_str(), MEMORY_CLOBBER) {
                if memory {
                    self.report(
                        TypeCheckError::AsmDuplicateClobber {
                            register: reg.name.clone(),
                            position: reg.pos,
                        },
                    );
                }
                memory = true;
            } else if let Some(info) = self.resolve_asm_reg(arch, reg) {
                if find_owner(params, info.family).is_some() || result == Some(info.family) {
                    self.report(
                        TypeCheckError::AsmClobberIsOperand {
                            register: reg.name.clone(),
                            position: reg.pos,
                        },
                    );
                } else if has_family(&taken, info.family) {
                    self.report(
                        TypeCheckError::AsmDuplicateClobber {
                            register: reg.name.clone(),
                            position: reg.pos,
                        },
                    );
                } else {
                    taken.push(info.family);
                }
            }
        }
        assert(all.take(i as int) =~= all);
    }

    /// Check the register contract of an `asm fn` against the target.
    pub fn check_asm_function(&mut self, proto: &FunctionProto, body: &AsmSpec)
        requires
            old(self).wf(),
        ensures
            final(self).follows(*old(self)),
            final(self).state() == contract(
                old(self).state(),
                proto.deep_view(),
                body.deep_view(),
            ),
    {
        let arch: &'static str = match self.target.arch_define() {
            Some(arch) if same(arch, "ARCH_X86_64") || same(arch, "ARCH_I386") => arch,
            _ => {
                let triple = self.target.triple().to_owned();
                self.report(
                    TypeCheckError::AsmUnsupportedTarget {
                        name: proto.name.clone(),
                        triple,
                        position: body.pos,
                    },
                );
                return ;
            },
        };
        assert(modelled_arch(old(self).state().target) == Some(arch@));
        self.check_pinnable_params(proto);
        if !proto.return_type.is_void_value() {
            self.check_pinnable_type(proto.return_type, proto.pos);
        }
        let params = self.check_param_regs(arch, proto, body);
        let result = self.check_return_reg(arch, proto, body);
        self.check_clobbers(arch, body, &params, result);
    }
}

} // verus!
