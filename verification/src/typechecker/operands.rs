//! The register contract of an `asm fn`.
//!
//! Registers are held against each other by family: `rax` and `eax` are one
//! physical register. Only parameters may not share one; a result may come
//! back in a register that a parameter went in with.
use vstd::prelude::*;

use crate::lexer::lang_type::LangType;
use crate::lexer::lang_type::TypeBase;
use crate::lexer::position::Position;
use crate::parser::ast::AsmModel;
use crate::parser::ast::AsmReg;
use crate::parser::ast::ProtoModel;
use crate::registers::class_text;
use crate::registers::is_reserved_family;
use crate::registers::pointer_bits;
use crate::registers::register;
use crate::registers::RegClass;
use crate::registers::RegFamily;
use crate::registers::RegInfo;
use crate::target::arch_of;
use crate::typechecker::errors::TypeCheckError;
use crate::typechecker::rules::type_text;
use crate::typechecker::rules::CheckState;

verus! {

/// The model of a register name.
pub type RegModel = AsmReg<Seq<char>>;

/// The clobber that names no register.
pub open spec fn is_memory(name: Seq<char>) -> bool {
    name == "memory"@
}

/// The architecture whose registers are known, if the target has one.
pub open spec fn modelled_arch(triple: Seq<char>) -> Option<Seq<char>> {
    match arch_of(triple) {
        Some(arch) if arch == "ARCH_X86_64"@ || arch == "ARCH_I386"@ => Some(arch),
        _ => None,
    }
}

/// The register of that name, unless it is unknown or reserved.
pub open spec fn resolve(st: CheckState, arch: Seq<char>, reg: RegModel) -> (
    CheckState,
    Option<RegInfo>,
) {
    match register(arch, reg.name) {
        None => (
            st.report(
                TypeCheckError::AsmUnknownRegister { register: reg.name, arch, position: reg.pos },
            ),
            None,
        ),
        Some(info) => if is_reserved_family(info.family) {
            (
                st.report(
                    TypeCheckError::AsmReservedRegister { register: reg.name, position: reg.pos },
                ),
                None,
            )
        } else {
            (st, Some(info))
        },
    }
}

/// The bits a value takes in a register.
pub open spec fn operand_bits(arch: Seq<char>, ty: LangType) -> u32 {
    if ty.is_pointer_like() {
        pointer_bits(arch)
    } else {
        ty.size_bits
    }
}

/// Whether a value can live in a register.
#[verifier::allow_in_spec]
pub fn is_pinnable(ty: LangType) -> bool
    returns
        ty.is_pointer_like() || (ty.is_plain_int() && (ty.size_bits == 8 || ty.size_bits == 16
            || ty.size_bits == 32 || ty.size_bits == 64)) || (ty.is_plain_float() && (ty.size_bits
            == 32 || ty.size_bits == 64)),
{
    ty.is_pointer_like() || (ty.is_plain_int() && (ty.size_bits == 8 || ty.size_bits == 16
        || ty.size_bits == 32 || ty.size_bits == 64)) || (ty.is_plain_float() && (ty.size_bits
        == 32 || ty.size_bits == 64))
}

pub open spec fn pin_type(st: CheckState, ty: LangType, position: Position) -> CheckState {
    st.report_if(
        !is_pinnable(ty),
        TypeCheckError::AsmUnpinnableType { found: type_text(st.symbols, ty), position },
    )
}

/// The bank of registers that values of a type live in.
#[verifier::allow_in_spec]
pub fn bank_of(ty: LangType) -> RegClass
    returns
        (if ty.is_plain_float() {
            RegClass::Sse
        } else {
            RegClass::Gpr
        }),
{
    if ty.is_plain_float() {
        RegClass::Sse
    } else {
        RegClass::Gpr
    }
}

/// A value pinned to a register: its bank, then its width.
pub open spec fn pin(st: CheckState, arch: Seq<char>, ty: LangType, info: RegInfo, reg: RegModel) -> CheckState {
    let found = type_text(st.symbols, ty);
    let s1 = st.report_if(
        info.class != bank_of(ty),
        TypeCheckError::AsmRegisterClassMismatch {
            found,
            register: reg.name,
            expected: class_text(bank_of(ty)),
            actual: class_text(info.class),
            position: reg.pos,
        },
    );
    s1.report_if(
        operand_bits(arch, ty) > info.width_bits,
        TypeCheckError::AsmRegisterTooNarrow {
            found,
            type_bits: operand_bits(arch, ty),
            register: reg.name,
            reg_bits: info.width_bits,
            position: reg.pos,
        },
    )
}

pub open spec fn pin_types(
    st: CheckState,
    params: Seq<(LangType, Seq<char>)>,
    position: Position,
) -> CheckState
    decreases params.len(),
{
    if params.len() == 0 {
        st
    } else {
        pin_type(pin_types(st, params.drop_last(), position), params.last().0, position)
    }
}

/// The first parameter that has a family.
pub open spec fn owner_of(taken: Seq<(RegFamily, Seq<char>)>, family: RegFamily) -> Option<
    Seq<char>,
>
    decreases taken.len(),
{
    if taken.len() == 0 {
        None
    } else if taken[0].0 == family {
        Some(taken[0].1)
    } else {
        owner_of(taken.skip(1), family)
    }
}

/// The first `n` parameters, each with its register; the families they take.
pub open spec fn pin_params(
    st: CheckState,
    arch: Seq<char>,
    regs: Seq<RegModel>,
    params: Seq<(LangType, Seq<char>)>,
    n: nat,
) -> (CheckState, Seq<(RegFamily, Seq<char>)>)
    decreases n,
{
    if n == 0 {
        (st, Seq::empty())
    } else {
        let (s1, taken) = pin_params(st, arch, regs, params, (n - 1) as nat);
        let reg = regs[n - 1];
        let (ty, name) = params[n - 1];
        match resolve(s1, arch, reg) {
            (s2, None) => (s2, taken),
            (s2, Some(info)) => {
                let s3 = pin(s2, arch, ty, info, reg);
                match owner_of(taken, info.family) {
                    Some(owner) => (
                        s3.report(
                            TypeCheckError::AsmDuplicateRegister {
                                register: reg.name,
                                param: owner,
                                position: reg.pos,
                            },
                        ),
                        taken,
                    ),
                    None => (s3, taken.push((info.family, name))),
                }
            },
        }
    }
}

/// The register of the result, and its family.
pub open spec fn pin_result(
    st: CheckState,
    arch: Seq<char>,
    reg: Option<RegModel>,
    ty: LangType,
) -> (CheckState, Option<RegFamily>) {
    match reg {
        None => (st, None),
        Some(reg) => match resolve(st, arch, reg) {
            (s1, None) => (s1, None),
            (s1, Some(info)) => (
                if ty.is_void_value() {
                    s1
                } else {
                    pin(s1, arch, ty, info, reg)
                },
                Some(info.family),
            ),
        },
    }
}

/// The clobbers in order: whether `memory` was named, and the families taken.
pub open spec fn clobbered(
    st: CheckState,
    arch: Seq<char>,
    clobbers: Seq<RegModel>,
    params: Seq<(RegFamily, Seq<char>)>,
    result: Option<RegFamily>,
) -> (CheckState, bool, Seq<RegFamily>)
    decreases clobbers.len(),
{
    if clobbers.len() == 0 {
        (st, false, Seq::empty())
    } else {
        let (s1, memory, taken) = clobbered(st, arch, clobbers.drop_last(), params, result);
        let reg = clobbers.last();
        let again = TypeCheckError::AsmDuplicateClobber { register: reg.name, position: reg.pos };
        if is_memory(reg.name) {
            (s1.report_if(memory, again), true, taken)
        } else {
            match resolve(s1, arch, reg) {
                (s2, None) => (s2, memory, taken),
                (s2, Some(info)) => if owner_of(params, info.family) is Some || result == Some(
                    info.family,
                ) {
                    (
                        s2.report(
                            TypeCheckError::AsmClobberIsOperand {
                                register: reg.name,
                                position: reg.pos,
                            },
                        ),
                        memory,
                        taken,
                    )
                } else if taken.contains(info.family) {
                    (s2.report(again), memory, taken)
                } else {
                    (s2, memory, taken.push(info.family))
                },
            }
        }
    }
}

/// What is wrong with the register contract of an `asm fn`.
pub open spec fn contract(st: CheckState, proto: ProtoModel, body: AsmModel) -> CheckState {
    match modelled_arch(st.target) {
        None => st.report(
            TypeCheckError::AsmUnsupportedTarget {
                name: proto.name,
                triple: st.target,
                position: body.pos,
            },
        ),
        Some(arch) => {
            let s1 = pin_types(st, proto.params, proto.pos);
            let s2 = if proto.return_type.is_void_value() {
                s1
            } else {
                pin_type(s1, proto.return_type, proto.pos)
            };
            let n = if body.param_regs.len() <= proto.params.len() {
                body.param_regs.len()
            } else {
                proto.params.len()
            };
            let (s3, params) = pin_params(s2, arch, body.param_regs, proto.params, n);
            let (s4, result) = pin_result(s3, arch, body.return_reg, proto.return_type);
            clobbered(s4, arch, body.clobbers, params, result).0
        },
    }
}

proof fn lemma_owner(taken: Seq<(RegFamily, Seq<char>)>, family: RegFamily)
    ensures
        owner_of(taken, family) is None <==> forall|i: int|
            0 <= i < taken.len() ==> (#[trigger] taken[i]).0 != family,
    decreases taken.len(),
{
    if taken.len() > 0 {
        let rest = taken.skip(1);
        lemma_owner(rest, family);
        assert(forall|i: int| 0 <= i < rest.len() ==> #[trigger] rest[i] == taken[i + 1]);
        if owner_of(taken, family) is None {
            assert forall|i: int| 0 <= i < taken.len() implies (#[trigger] taken[i]).0
                != family by {
                if i > 0 {
                    assert(rest[i - 1] == taken[i]);
                }
            }
        }
    }
}

/// The parameters of an `asm fn` hold registers of their own: no two of those
/// that were accepted share one under any of its names, and where nothing was
/// reported, every parameter was accepted.
pub proof fn law_parameters_share_no_register(
    st: CheckState,
    arch: Seq<char>,
    regs: Seq<RegModel>,
    params: Seq<(LangType, Seq<char>)>,
    n: nat,
)
    ensures
        ({
            let (after, taken) = pin_params(st, arch, regs, params, n);
            &&& forall|i: int, j: int|
                0 <= i < j < taken.len() ==> (#[trigger] taken[i]).0 != (#[trigger] taken[j]).0
            &&& st.errors.len() <= after.errors.len()
            &&& after.errors.len() == st.errors.len() ==> taken.len() == n
        }),
    decreases n,
{
    if n > 0 {
        let m = (n - 1) as nat;
        law_parameters_share_no_register(st, arch, regs, params, m);
        let (s1, taken) = pin_params(st, arch, regs, params, m);
        if let Some(info) = resolve(s1, arch, regs[n - 1]).1 {
            lemma_owner(taken, info.family);
        }
    }
}

/// What an `asm fn` clobbers holds none of its operands, and names no register
/// twice.
pub proof fn law_clobbers_are_no_operands(
    st: CheckState,
    arch: Seq<char>,
    clobbers: Seq<RegModel>,
    params: Seq<(RegFamily, Seq<char>)>,
    result: Option<RegFamily>,
)
    ensures
        ({
            let (_, _, taken) = clobbered(st, arch, clobbers, params, result);
            &&& taken.no_duplicates()
            &&& forall|i: int|
                0 <= i < taken.len() ==> owner_of(params, #[trigger] taken[i]) is None && result
                    != Some(taken[i])
        }),
    decreases clobbers.len(),
{
    if clobbers.len() > 0 {
        law_clobbers_are_no_operands(st, arch, clobbers.drop_last(), params, result);
    }
}

/// The result may come back in the register of a parameter: what is reported
/// of it does not depend on the registers of the parameters.
pub proof fn law_result_may_share_a_register(
    st: CheckState,
    arch: Seq<char>,
    reg: RegModel,
    info: RegInfo,
    ty: LangType,
)
    requires
        register(arch, reg.name) == Some(info),
        !is_reserved_family(info.family),
        info.class == bank_of(ty),
        operand_bits(arch, ty) <= info.width_bits,
    ensures
        pin_result(st, arch, Some(reg), ty) == (st, Some(info.family)),
{
}

/// Pointers, integers of 8 to 64 bits and floats of 32 and 64 bits live in
/// registers; nothing else does.
pub proof fn law_what_lives_in_registers(st: CheckState, ty: LangType, position: Position)
    ensures
        ({
            let plain = ty.pointer_depth == 0 && ty.array_size is None;
            let bits = ty.size_bits;
            let fits = !plain || ((ty.base == TypeBase::SInt || ty.base == TypeBase::UInt) && (bits
                == 8 || bits == 16 || bits == 32 || bits == 64)) || (ty.base == TypeBase::SFloat
                && (bits == 32 || bits == 64));
            let after = pin_type(st, ty, position);
            &&& fits ==> after == st
            &&& !fits ==> after.errors == st.errors.push(
                TypeCheckError::AsmUnpinnableType { found: type_text(st.symbols, ty), position },
            )
        }),
{
}

/// A register that is not known on its architecture is reported, and so is one
/// of the stack or of the frame; any other is taken as it is.
pub proof fn law_which_registers_are_taken(st: CheckState, arch: Seq<char>, reg: RegModel)
    ensures
        ({
            let after = resolve(st, arch, reg);
            match register(arch, reg.name) {
                None => after.1 is None && after.0.errors == st.errors.push(
                    TypeCheckError::AsmUnknownRegister {
                        register: reg.name,
                        arch,
                        position: reg.pos,
                    },
                ),
                Some(info) if info.family == RegFamily::Sp || info.family == RegFamily::Bp =>
                    after.1 is None && after.0.errors == st.errors.push(
                    TypeCheckError::AsmReservedRegister {
                        register: reg.name,
                        position: reg.pos,
                    },
                ),
                Some(info) => after == (st, Some(info)),
            }
        }),
{
}

/// A float lives in an SSE register and everything else in a general one, and
/// no value in a register that is narrower: a pointer is as wide as an address.
/// Both are told, the bank first.
pub proof fn law_values_fit_their_register(
    st: CheckState,
    arch: Seq<char>,
    ty: LangType,
    info: RegInfo,
    reg: RegModel,
)
    ensures
        ({
            let plain = ty.pointer_depth == 0 && ty.array_size is None;
            let bits = if plain {
                ty.size_bits
            } else if arch == "ARCH_I386"@ {
                32
            } else {
                64
            };
            let float = plain && ty.base == TypeBase::SFloat;
            let wrong_bank = float != (info.class == RegClass::Sse);
            let after = pin(st, arch, ty, info, reg);
            &&& after.errors.len() == st.errors.len() + (if wrong_bank {
                1int
            } else {
                0int
            }) + (if bits > info.width_bits {
                1int
            } else {
                0int
            })
            &&& wrong_bank ==> after.errors[st.errors.len() as int] is AsmRegisterClassMismatch
            &&& bits > info.width_bits ==> after.errors.last() is AsmRegisterTooNarrow
            &&& after.errors.take(st.errors.len() as int) == st.errors
        }),
{
    let after = pin(st, arch, ty, info, reg);
    assert(after.errors.take(st.errors.len() as int) =~= st.errors);
}

/// On a target whose registers are not known the contract is reported and not
/// looked at: that is every target but the two of x86.
pub proof fn law_contracts_need_a_known_target(st: CheckState, proto: ProtoModel, body: AsmModel)
    requires
        arch_of(st.target) != Some("ARCH_X86_64"@),
        arch_of(st.target) != Some("ARCH_I386"@),
    ensures
        contract(st, proto, body).errors == st.errors.push(
            TypeCheckError::AsmUnsupportedTarget {
                name: proto.name,
                triple: st.target,
                position: body.pos,
            },
        ),
{
}

/// A contract without registers is without error, where every value that goes
/// in or out could live in one.
pub proof fn law_an_empty_contract_is_kept(st: CheckState, proto: ProtoModel, body: AsmModel)
    requires
        arch_of(st.target) == Some("ARCH_X86_64"@) || arch_of(st.target) == Some("ARCH_I386"@),
        body.param_regs.len() == 0,
        body.return_reg is None,
        body.clobbers.len() == 0,
        forall|i: int| 0 <= i < proto.params.len() ==> is_pinnable((#[trigger] proto.params[i]).0),
        is_pinnable(proto.return_type) || proto.return_type.is_void_value(),
    ensures
        contract(st, proto, body) == st,
{
    lemma_pin_types(st, proto.params, proto.pos);
}

proof fn lemma_pin_types(st: CheckState, params: Seq<(LangType, Seq<char>)>, position: Position)
    requires
        forall|i: int| 0 <= i < params.len() ==> is_pinnable((#[trigger] params[i]).0),
    ensures
        pin_types(st, params, position) == st,
    decreases params.len(),
{
    if params.len() > 0 {
        let front = params.drop_last();
        assert forall|i: int| 0 <= i < front.len() implies is_pinnable((#[trigger] front[i]).0) by {
            assert(front[i] == params[i]);
        }
        lemma_pin_types(st, front, position);
        assert(is_pinnable(params[params.len() - 1].0));
    }
}

/// The first register of a contract is held against the first parameter; one
/// more against the next, behind it.
pub proof fn law_registers_go_with_their_parameter(
    st: CheckState,
    arch: Seq<char>,
    regs: Seq<RegModel>,
    params: Seq<(LangType, Seq<char>)>,
    n: nat,
    info: RegInfo,
)
    requires
        n < regs.len(),
        n < params.len(),
        register(arch, regs[n as int].name) == Some(info),
        info.family != RegFamily::Sp,
        info.family != RegFamily::Bp,
        owner_of(pin_params(st, arch, regs, params, n).1, info.family) is None,
    ensures
        ({
            let before = pin_params(st, arch, regs, params, n);
            let after = pin_params(st, arch, regs, params, n + 1);
            &&& after.0 == pin(before.0, arch, params[n as int].0, info, regs[n as int])
            &&& after.1 == before.1.push((info.family, params[n as int].1))
        }),
{
}

/// A result of no value is held against no bank and no width.
pub proof fn law_no_result_fits_every_register(
    st: CheckState,
    arch: Seq<char>,
    reg: RegModel,
    ty: LangType,
    info: RegInfo,
)
    requires
        register(arch, reg.name) == Some(info),
        info.family != RegFamily::Sp,
        info.family != RegFamily::Bp,
    ensures
        pin_result(st, arch, Some(reg), ty).1 == Some(info.family),
        ty.base == TypeBase::Void && ty.pointer_depth == 0 ==> pin_result(
            st,
            arch,
            Some(reg),
            ty,
        ).0 == st,
        !(ty.base == TypeBase::Void && ty.pointer_depth == 0) ==> pin_result(
            st,
            arch,
            Some(reg),
            ty,
        ).0 == pin(st, arch, ty, info, reg),
{
}

/// `memory` is a clobber of every contract, and named once.
pub proof fn law_memory_is_clobbered_once(
    st: CheckState,
    arch: Seq<char>,
    clobbers: Seq<RegModel>,
    reg: RegModel,
    params: Seq<(RegFamily, Seq<char>)>,
    result: Option<RegFamily>,
)
    requires
        reg.name == "memory"@,
    ensures
        ({
            let before = clobbered(st, arch, clobbers, params, result);
            let after = clobbered(st, arch, clobbers.push(reg), params, result);
            &&& after.1
            &&& after.2 == before.2
            &&& after.0.errors == if before.1 {
                before.0.errors.push(
                    TypeCheckError::AsmDuplicateClobber { register: reg.name, position: reg.pos },
                )
            } else {
                before.0.errors
            }
        }),
{
    assert(clobbers.push(reg).drop_last() =~= clobbers);
}

} // verus!
