//! The machine conversion each cast between two types needs.
use vstd::prelude::*;

use crate::ast::typing::type_text;
use crate::ast::{BaseType, IntegerType, Span};
use crate::utils::error::{is_invalid_cast, CompileErr};

verus! {

/// The conversion instructions a cast can lower to.
#[derive(Debug, Clone, Copy, PartialEq, Eq, Structural)]
pub enum CastOpcode {
    Trunc,
    ZExt,
    SExt,
    FPToUI,
    FPToSI,
    UIToFP,
    SIToFP,
    FPTrunc,
    FPExt,
    PtrToInt,
    IntToPtr,
    BitCast,
}

/// The conversion from `curr` to `dest`, when there is one. Typedef names are
/// not resolved here.
pub open spec fn cast_opcode(curr: BaseType, dest: BaseType) -> Option<CastOpcode> {
    match curr {
        BaseType::UnsignedInteger(IntegerType::Char) => match dest {
            BaseType::SignedInteger(_) => Some(CastOpcode::SExt),
            BaseType::UnsignedInteger(_) => Some(CastOpcode::ZExt),
            BaseType::Float | BaseType::Double => Some(CastOpcode::SIToFP),
            BaseType::Pointer(_) => Some(CastOpcode::IntToPtr),
            _ => None,
        },
        BaseType::SignedInteger(IntegerType::Char) => match dest {
            BaseType::SignedInteger(IntegerType::Char) => Some(CastOpcode::BitCast),
            BaseType::SignedInteger(_) | BaseType::UnsignedInteger(_) => Some(CastOpcode::ZExt),
            BaseType::Float | BaseType::Double => Some(CastOpcode::UIToFP),
            BaseType::Pointer(_) => Some(CastOpcode::IntToPtr),
            _ => None,
        },
        BaseType::SignedInteger(IntegerType::Short) => match dest {
            BaseType::SignedInteger(IntegerType::Char) | BaseType::UnsignedInteger(IntegerType::Char) => Some(CastOpcode::Trunc),
            BaseType::UnsignedInteger(IntegerType::Short) => Some(CastOpcode::BitCast),
            BaseType::SignedInteger(_) => Some(CastOpcode::SExt),
            BaseType::UnsignedInteger(_) => Some(CastOpcode::ZExt),
            BaseType::Float | BaseType::Double => Some(CastOpcode::SIToFP),
            BaseType::Pointer(_) => Some(CastOpcode::IntToPtr),
            _ => None,
        },
        BaseType::UnsignedInteger(IntegerType::Short) => match dest {
            BaseType::SignedInteger(IntegerType::Char) | BaseType::UnsignedInteger(IntegerType::Char) => Some(CastOpcode::Trunc),
            BaseType::SignedInteger(IntegerType::Short) => Some(CastOpcode::BitCast),
            BaseType::SignedInteger(_) | BaseType::UnsignedInteger(_) => Some(CastOpcode::ZExt),
            BaseType::Float | BaseType::Double => Some(CastOpcode::UIToFP),
            BaseType::Pointer(_) => Some(CastOpcode::IntToPtr),
            _ => None,
        },
        BaseType::SignedInteger(IntegerType::Int) => match dest {
            BaseType::SignedInteger(IntegerType::Char) | BaseType::UnsignedInteger(IntegerType::Char) | BaseType::SignedInteger(IntegerType::Short) | BaseType::UnsignedInteger(IntegerType::Short) => Some(CastOpcode::Trunc),
            BaseType::UnsignedInteger(IntegerType::Int) => Some(CastOpcode::BitCast),
            BaseType::SignedInteger(_) => Some(CastOpcode::SExt),
            BaseType::UnsignedInteger(_) => Some(CastOpcode::ZExt),
            BaseType::Float | BaseType::Double => Some(CastOpcode::SIToFP),
            BaseType::Pointer(_) => Some(CastOpcode::IntToPtr),
            _ => None,
        },
        BaseType::UnsignedInteger(IntegerType::Int) => match dest {
            BaseType::SignedInteger(IntegerType::Char) | BaseType::UnsignedInteger(IntegerType::Char) | BaseType::SignedInteger(IntegerType::Short) | BaseType::UnsignedInteger(IntegerType::Short) => Some(CastOpcode::Trunc),
            BaseType::SignedInteger(IntegerType::Int) => Some(CastOpcode::BitCast),
            BaseType::SignedInteger(_) | BaseType::UnsignedInteger(_) => Some(CastOpcode::ZExt),
            BaseType::Float | BaseType::Double => Some(CastOpcode::UIToFP),
            BaseType::Pointer(_) => Some(CastOpcode::IntToPtr),
            _ => None,
        },
        BaseType::SignedInteger(IntegerType::Long) => match dest {
            BaseType::SignedInteger(IntegerType::Char) | BaseType::UnsignedInteger(IntegerType::Char) | BaseType::SignedInteger(IntegerType::Short) | BaseType::UnsignedInteger(IntegerType::Short) | BaseType::SignedInteger(IntegerType::Int) | BaseType::UnsignedInteger(IntegerType::Int) => Some(CastOpcode::Trunc),
            BaseType::UnsignedInteger(IntegerType::Long) => Some(CastOpcode::BitCast),
            BaseType::SignedInteger(_) => Some(CastOpcode::SExt),
            BaseType::UnsignedInteger(_) => Some(CastOpcode::ZExt),
            BaseType::Float | BaseType::Double => Some(CastOpcode::SIToFP),
            BaseType::Pointer(_) => Some(CastOpcode::IntToPtr),
            _ => None,
        },
        BaseType::UnsignedInteger(IntegerType::Long) => match dest {
            BaseType::SignedInteger(IntegerType::Char) | BaseType::UnsignedInteger(IntegerType::Char) | BaseType::SignedInteger(IntegerType::Short) | BaseType::UnsignedInteger(IntegerType::Short) | BaseType::SignedInteger(IntegerType::Int) | BaseType::UnsignedInteger(IntegerType::Int) => Some(CastOpcode::Trunc),
            BaseType::SignedInteger(IntegerType::Long) => Some(CastOpcode::BitCast),
            BaseType::SignedInteger(_) | BaseType::UnsignedInteger(_) => Some(CastOpcode::ZExt),
            BaseType::Float | BaseType::Double => Some(CastOpcode::UIToFP),
            BaseType::Pointer(_) => Some(CastOpcode::IntToPtr),
            _ => None,
        },
        BaseType::SignedInteger(IntegerType::LongLong) => match dest {
            BaseType::SignedInteger(IntegerType::Char) | BaseType::UnsignedInteger(IntegerType::Char) | BaseType::SignedInteger(IntegerType::Short) | BaseType::UnsignedInteger(IntegerType::Short) | BaseType::SignedInteger(IntegerType::Int) | BaseType::UnsignedInteger(IntegerType::Int) | BaseType::SignedInteger(IntegerType::Long) | BaseType::UnsignedInteger(IntegerType::Long) => Some(CastOpcode::Trunc),
            BaseType::UnsignedInteger(IntegerType::LongLong) => Some(CastOpcode::BitCast),
            BaseType::Float | BaseType::Double => Some(CastOpcode::SIToFP),
            BaseType::Pointer(_) => Some(CastOpcode::IntToPtr),
            _ => None,
        },
        BaseType::UnsignedInteger(IntegerType::LongLong) => match dest {
            BaseType::SignedInteger(IntegerType::Char) | BaseType::UnsignedInteger(IntegerType::Char) | BaseType::SignedInteger(IntegerType::Short) | BaseType::UnsignedInteger(IntegerType::Short) | BaseType::SignedInteger(IntegerType::Int) | BaseType::UnsignedInteger(IntegerType::Int) | BaseType::SignedInteger(IntegerType::Long) | BaseType::UnsignedInteger(IntegerType::Long) => Some(CastOpcode::Trunc),
            BaseType::SignedInteger(IntegerType::LongLong) => Some(CastOpcode::BitCast),
            BaseType::Float | BaseType::Double => Some(CastOpcode::UIToFP),
            BaseType::Pointer(_) => Some(CastOpcode::IntToPtr),
            _ => None,
        },
        BaseType::Bool => match dest {
            BaseType::SignedInteger(_) | BaseType::UnsignedInteger(_) => Some(CastOpcode::ZExt),
            BaseType::Float | BaseType::Double => Some(CastOpcode::UIToFP),
            _ => None,
        },
        BaseType::Float => match dest {
            BaseType::SignedInteger(_) => Some(CastOpcode::FPToSI),
            BaseType::UnsignedInteger(_) => Some(CastOpcode::FPToUI),
            BaseType::Double => Some(CastOpcode::FPExt),
            _ => None,
        },
        BaseType::Double => match dest {
            BaseType::SignedInteger(_) => Some(CastOpcode::FPToSI),
            BaseType::UnsignedInteger(_) => Some(CastOpcode::FPToUI),
            BaseType::Float => Some(CastOpcode::FPTrunc),
            _ => None,
        },
        BaseType::Pointer(_) => match dest {
            BaseType::SignedInteger(_) | BaseType::UnsignedInteger(_) => Some(CastOpcode::PtrToInt),
            BaseType::Pointer(_) => Some(CastOpcode::BitCast),
            _ => None,
        },
        BaseType::Array(_, _) => match dest {
            BaseType::Pointer(_) => Some(CastOpcode::BitCast),
            _ => None,
        },
        _ => None,
    }
}

/// The conversion instruction that casts a value of type `curr` to `dest`,
/// or an invalid-cast error naming both types.
pub fn gen_cast_llvm_instruction(curr: &BaseType, dest: &BaseType, span: Span) -> (r: Result<CastOpcode, CompileErr>)
    ensures
        match r {
            Ok(op) => cast_opcode(*curr, *dest) == Some(op),
            Err(e) => cast_opcode(*curr, *dest) is None && is_invalid_cast(e, type_text(*curr), type_text(*dest), span),
        },
{
    let instruction = match curr {
            BaseType::UnsignedInteger(IntegerType::Char) => match dest {
                BaseType::SignedInteger(_) => CastOpcode::SExt,
                BaseType::UnsignedInteger(_) => CastOpcode::ZExt,
                BaseType::Float | BaseType::Double => CastOpcode::SIToFP,
                BaseType::Pointer(_) => CastOpcode::IntToPtr,
                _ => return Err(CompileErr::invalid_cast(curr.to_string(), dest.to_string(), span)),
            },
            BaseType::SignedInteger(IntegerType::Char) => match dest {
                BaseType::SignedInteger(IntegerType::Char) => CastOpcode::BitCast,
                BaseType::SignedInteger(_) | BaseType::UnsignedInteger(_) => CastOpcode::ZExt,
                BaseType::Float | BaseType::Double => CastOpcode::UIToFP,
                BaseType::Pointer(_) => CastOpcode::IntToPtr,
                _ => return Err(CompileErr::invalid_cast(curr.to_string(), dest.to_string(), span)),
            },
            BaseType::SignedInteger(IntegerType::Short) => match dest {
                BaseType::SignedInteger(IntegerType::Char) | BaseType::UnsignedInteger(IntegerType::Char) => CastOpcode::Trunc,
                BaseType::UnsignedInteger(IntegerType::Short) => CastOpcode::BitCast,
                BaseType::SignedInteger(_) => CastOpcode::SExt,
                BaseType::UnsignedInteger(_) => CastOpcode::ZExt,
                BaseType::Float | BaseType::Double => CastOpcode::SIToFP,
                BaseType::Pointer(_) => CastOpcode::IntToPtr,
                _ => return Err(CompileErr::invalid_cast(curr.to_string(), dest.to_string(), span)),
            },
            BaseType::UnsignedInteger(IntegerType::Short) => match dest {
                BaseType::SignedInteger(IntegerType::Char) | BaseType::UnsignedInteger(IntegerType::Char) => CastOpcode::Trunc,
                BaseType::SignedInteger(IntegerType::Short) => CastOpcode::BitCast,
                BaseType::SignedInteger(_) | BaseType::UnsignedInteger(_) => CastOpcode::ZExt,
                BaseType::Float | BaseType::Double => CastOpcode::UIToFP,
                BaseType::Pointer(_) => CastOpcode::IntToPtr,
                _ => return Err(CompileErr::invalid_cast(curr.to_string(), dest.to_string(), span)),
            },
            BaseType::SignedInteger(IntegerType::Int) => match dest {
                BaseType::SignedInteger(IntegerType::Char) | BaseType::UnsignedInteger(IntegerType::Char) | BaseType::SignedInteger(IntegerType::Short) | BaseType::UnsignedInteger(IntegerType::Short) => CastOpcode::Trunc,
                BaseType::UnsignedInteger(IntegerType::Int) => CastOpcode::BitCast,
                BaseType::SignedInteger(_) => CastOpcode::SExt,
                BaseType::UnsignedInteger(_) => CastOpcode::ZExt,
                BaseType::Float | BaseType::Double => CastOpcode::SIToFP,
                BaseType::Pointer(_) => CastOpcode::IntToPtr,
                _ => return Err(CompileErr::invalid_cast(curr.to_string(), dest.to_string(), span)),
            },
            BaseType::UnsignedInteger(IntegerType::Int) => match dest {
                BaseType::SignedInteger(IntegerType::Char) | BaseType::UnsignedInteger(IntegerType::Char) | BaseType::SignedInteger(IntegerType::Short) | BaseType::UnsignedInteger(IntegerType::Short) => CastOpcode::Trunc,
                BaseType::SignedInteger(IntegerType::Int) => CastOpcode::BitCast,
                BaseType::SignedInteger(_) | BaseType::UnsignedInteger(_) => CastOpcode::ZExt,
                BaseType::Float | BaseType::Double => CastOpcode::UIToFP,
                BaseType::Pointer(_) => CastOpcode::IntToPtr,
                _ => return Err(CompileErr::invalid_cast(curr.to_string(), dest.to_string(), span)),
            },
            BaseType::SignedInteger(IntegerType::Long) => match dest {
                BaseType::SignedInteger(IntegerType::Char) | BaseType::UnsignedInteger(IntegerType::Char) | BaseType::SignedInteger(IntegerType::Short) | BaseType::UnsignedInteger(IntegerType::Short) | BaseType::SignedInteger(IntegerType::Int) | BaseType::UnsignedInteger(IntegerType::Int) => CastOpcode::Trunc,
                BaseType::UnsignedInteger(IntegerType::Long) => CastOpcode::BitCast,
                BaseType::SignedInteger(_) => CastOpcode::SExt,
                BaseType::UnsignedInteger(_) => CastOpcode::ZExt,
                BaseType::Float | BaseType::Double => CastOpcode::SIToFP,
                BaseType::Pointer(_) => CastOpcode::IntToPtr,
                _ => return Err(CompileErr::invalid_cast(curr.to_string(), dest.to_string(), span)),
            },
            BaseType::UnsignedInteger(IntegerType::Long) => match dest {
                BaseType::SignedInteger(IntegerType::Char) | BaseType::UnsignedInteger(IntegerType::Char) | BaseType::SignedInteger(IntegerType::Short) | BaseType::UnsignedInteger(IntegerType::Short) | BaseType::SignedInteger(IntegerType::Int) | BaseType::UnsignedInteger(IntegerType::Int) => CastOpcode::Trunc,
                BaseType::SignedInteger(IntegerType::Long) => CastOpcode::BitCast,
                BaseType::SignedInteger(_) | BaseType::UnsignedInteger(_) => CastOpcode::ZExt,
                BaseType::Float | BaseType::Double => CastOpcode::UIToFP,
                BaseType::Pointer(_) => CastOpcode::IntToPtr,
                _ => return Err(CompileErr::invalid_cast(curr.to_string(), dest.to_string(), span)),
            },
            BaseType::SignedInteger(IntegerType::LongLong) => match dest {
                BaseType::SignedInteger(IntegerType::Char) | BaseType::UnsignedInteger(IntegerType::Char) | BaseType::SignedInteger(IntegerType::Short) | BaseType::UnsignedInteger(IntegerType::Short) | BaseType::SignedInteger(IntegerType::Int) | BaseType::UnsignedInteger(IntegerType::Int) | BaseType::SignedInteger(IntegerType::Long) | BaseType::UnsignedInteger(IntegerType::Long) => CastOpcode::Trunc,
                BaseType::UnsignedInteger(IntegerType::LongLong) => CastOpcode::BitCast,
                BaseType::Float | BaseType::Double => CastOpcode::SIToFP,
                BaseType::Pointer(_) => CastOpcode::IntToPtr,
                _ => return Err(CompileErr::invalid_cast(curr.to_string(), dest.to_string(), span)),
            },
            BaseType::UnsignedInteger(IntegerType::LongLong) => match dest {
                BaseType::SignedInteger(IntegerType::Char) | BaseType::UnsignedInteger(IntegerType::Char) | BaseType::SignedInteger(IntegerType::Short) | BaseType::UnsignedInteger(IntegerType::Short) | BaseType::SignedInteger(IntegerType::Int) | BaseType::UnsignedInteger(IntegerType::Int) | BaseType::SignedInteger(IntegerType::Long) | BaseType::UnsignedInteger(IntegerType::Long) => CastOpcode::Trunc,
                BaseType::SignedInteger(IntegerType::LongLong) => CastOpcode::BitCast,
                BaseType::Float | BaseType::Double => CastOpcode::UIToFP,
                BaseType::Pointer(_) => CastOpcode::IntToPtr,
                _ => return Err(CompileErr::invalid_cast(curr.to_string(), dest.to_string(), span)),
            },
            BaseType::Bool => match dest {
                BaseType::SignedInteger(_) | BaseType::UnsignedInteger(_) => CastOpcode::ZExt,
                BaseType::Float | BaseType::Double => CastOpcode::UIToFP,
                _ => return Err(CompileErr::invalid_cast(curr.to_string(), dest.to_string(), span)),
            },
            BaseType::Float => match dest {
                BaseType::SignedInteger(_) => CastOpcode::FPToSI,
                BaseType::UnsignedInteger(_) => CastOpcode::FPToUI,
                BaseType::Double => CastOpcode::FPExt,
                _ => return Err(CompileErr::invalid_cast(curr.to_string(), dest.to_string(), span)),
            },
            BaseType::Double => match dest {
                BaseType::SignedInteger(_) => CastOpcode::FPToSI,
                BaseType::UnsignedInteger(_) => CastOpcode::FPToUI,
                BaseType::Float => CastOpcode::FPTrunc,
                _ => return Err(CompileErr::invalid_cast(curr.to_string(), dest.to_string(), span)),
            },
            BaseType::Pointer(_) => match dest {
                BaseType::SignedInteger(_) | BaseType::UnsignedInteger(_) => CastOpcode::PtrToInt,
                BaseType::Pointer(_) => CastOpcode::BitCast,
                _ => return Err(CompileErr::invalid_cast(curr.to_string(), dest.to_string(), span)),
            },
            BaseType::Array(_, _) => match dest {
                BaseType::Pointer(_) => CastOpcode::BitCast,
                _ => return Err(CompileErr::invalid_cast(curr.to_string(), dest.to_string(), span)),
            },
            _ => return Err(CompileErr::invalid_cast(curr.to_string(), dest.to_string(), span)),
        };
    Ok(instruction)
}

} // verus!
