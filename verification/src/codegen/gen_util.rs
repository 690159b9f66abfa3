//! Stack-frame arithmetic of the code generator.

use crate::ast::{DataType, FuncDecl, ParamDeclView};
use vstd::prelude::*;

verus! {

/// What the code generator cannot lower.
#[derive(Debug, Clone, Copy, PartialEq, Eq, Structural)]
pub enum UnsupportedConstructError {
    /// A parameter of a type without a defined storage size.
    ParamType(DataType),
    /// A function whose parameters need more bytes than 32 bits count, or
    /// a frame whose size 32 bits do not hold.
    FrameTooLarge,
    /// A nested compound statement.
    CompoundStmt,
    /// A local variable declaration.
    VarDeclStmt,
    /// An assignment.
    AssignmentStmt,
    /// A reference to a variable.
    VarRefExpr,
    /// An arithmetic expression.
    ArithExpr,
}

/// How a refused construct reads.
pub open spec fn unsupported_text(e: UnsupportedConstructError) -> Seq<char> {
    match e {
        UnsupportedConstructError::ParamType(t) => "not supported: parameter of type "@
            + data_type_text(t),
        UnsupportedConstructError::FrameTooLarge => "not supported: frame beyond 32 bits"@,
        UnsupportedConstructError::CompoundStmt => "not supported: compound statement"@,
        UnsupportedConstructError::VarDeclStmt => "not supported: variable declaration"@,
        UnsupportedConstructError::AssignmentStmt => "not supported: assignment"@,
        UnsupportedConstructError::VarRefExpr => "not supported: variable reference"@,
        UnsupportedConstructError::ArithExpr => "not supported: arithmetic expression"@,
    }
}

/// How a data type reads in a diagnostic.
pub open spec fn data_type_text(t: DataType) -> Seq<char> {
    match t {
        DataType::Void => "Void"@,
        DataType::Char => "Char"@,
        DataType::Short => "Short"@,
        DataType::Int => "Int"@,
        DataType::Long => "Long"@,
        DataType::Float => "Float"@,
        DataType::Double => "Double"@,
    }
}

/// The name of a data type in a diagnostic.
pub fn data_type_name(t: DataType) -> (s: &'static str)
    ensures
        s@ == data_type_text(t),
{
    match t {
        DataType::Void => "Void",
        DataType::Char => "Char",
        DataType::Short => "Short",
        DataType::Int => "Int",
        DataType::Long => "Long",
        DataType::Float => "Float",
        DataType::Double => "Double",
    }
}

impl UnsupportedConstructError {
    /// The text of the error: the construct that cannot be lowered.
    pub fn message(&self) -> (s: String)
        ensures
            s@ == unsupported_text(*self),
    {
        match self {
            UnsupportedConstructError::ParamType(t) => {
                let mut s = String::from_str("not supported: parameter of type ");
                s.append(data_type_name(*t));
                s
            },
            UnsupportedConstructError::FrameTooLarge => String::from_str(
                "not supported: frame beyond 32 bits",
            ),
            UnsupportedConstructError::CompoundStmt => String::from_str(
                "not supported: compound statement",
            ),
            UnsupportedConstructError::VarDeclStmt => String::from_str(
                "not supported: variable declaration",
            ),
            UnsupportedConstructError::AssignmentStmt => String::from_str(
                "not supported: assignment",
            ),
            UnsupportedConstructError::VarRefExpr => String::from_str(
                "not supported: variable reference",
            ),
            UnsupportedConstructError::ArithExpr => String::from_str(
                "not supported: arithmetic expression",
            ),
        }
    }
}

/// The largest byte count whose frame size still fits in 32 bits.
pub const MAX_FRAME_INPUT: u32 = 0xffff_fff0;

/// The storage size of a value of type `t` in bytes. Only `Int` has one.
pub open spec fn type_size(t: DataType) -> Result<nat, UnsupportedConstructError> {
    if t == DataType::Int {
        Ok(4)
    } else {
        Err(UnsupportedConstructError::ParamType(t))
    }
}

/// The sum of the storage sizes of `params`, or the error of the first
/// parameter that has no storage size.
pub open spec fn params_size(params: Seq<ParamDeclView>) -> Result<nat, UnsupportedConstructError>
    decreases params.len(),
{
    if params.len() == 0 {
        Ok(0)
    } else {
        match params_size(params.drop_last()) {
            Err(e) => Err(e),
            Ok(sum) => match type_size(params.last().data_type) {
                Err(e) => Err(e),
                Ok(size) => Ok(sum + size),
            },
        }
    }
}

/// The bytes that the parameters of a function occupy: the sum of their
/// storage sizes, as far as 32 bits can count it.
pub open spec fn args_local_size(params: Seq<ParamDeclView>) -> Result<
    nat,
    UnsupportedConstructError,
> {
    match params_size(params) {
        Err(e) => Err(e),
        Ok(sum) => if sum <= u32::MAX {
            Ok(sum)
        } else {
            Err(UnsupportedConstructError::FrameTooLarge)
        },
    }
}

/// The frame size of a function with the parameters `params`: the bytes
/// that they occupy, rounded up to the stack alignment, as far as 32 bits
/// hold the rounded size.
pub open spec fn frame_of(params: Seq<ParamDeclView>) -> Result<nat, UnsupportedConstructError> {
    match args_local_size(params) {
        Err(e) => Err(e),
        Ok(size) => if size <= MAX_FRAME_INPUT {
            Ok(frame_size(size))
        } else {
            Err(UnsupportedConstructError::FrameTooLarge)
        },
    }
}

/// The frame size for `size` bytes of storage: the least multiple of 16
/// that is not below `size`.
pub open spec fn frame_size(size: nat) -> nat {
    16 * ((size + 15) / 16)
}

/// The frame size is the least multiple of 16 that holds `size` bytes:
/// a multiple of 16, not below `size`, and not above any multiple `m` of
/// 16 that holds `size` bytes. It is zero only for zero bytes.
pub proof fn lemma_frame_size(size: nat, m: nat)
    ensures
        frame_size(size) % 16 == 0,
        size <= frame_size(size) < size + 16,
        frame_size(size) == 0 <==> size == 0,
        m % 16 == 0 && size <= m ==> frame_size(size) <= m,
{
    if m % 16 == 0 && size <= m && m < frame_size(size) {
        assert(m / 16 < (size + 15) / 16);
    }
}

/// Every parameter type of a sized parameter list is `Int`, and the list
/// occupies four bytes per parameter.
pub proof fn lemma_params_size(params: Seq<ParamDeclView>)
    ensures
        params_size(params) is Ok <==> forall|i: int|
            0 <= i < params.len() ==> (#[trigger] params[i]).data_type == DataType::Int,
        params_size(params) matches Ok(sum) ==> sum == 4 * params.len(),
        params_size(params) matches Err(e) ==> exists|i: int|
            0 <= i < params.len() && e == UnsupportedConstructError::ParamType(
                (#[trigger] params[i]).data_type,
            ) && params[i].data_type != DataType::Int && forall|j: int|
                0 <= j < i ==> (#[trigger] params[j]).data_type == DataType::Int,
    decreases params.len(),
{
    if params.len() > 0 {
        let front = params.drop_last();
        lemma_params_size(front);
        assert forall|i: int| 0 <= i < front.len() implies front[i] == params[i] by {}
        match params_size(front) {
            Err(e) => {
                let i = choose|i: int|
                    0 <= i < front.len() && e == UnsupportedConstructError::ParamType(
                        (#[trigger] front[i]).data_type,
                    ) && front[i].data_type != DataType::Int && forall|j: int|
                        0 <= j < i ==> (#[trigger] front[j]).data_type == DataType::Int;
                assert(params[i] == front[i]);
                assert forall|j: int| 0 <= j < i implies (#[trigger] params[j]).data_type
                    == DataType::Int by {
                    assert(front[j] == params[j]);
                }
            },
            Ok(sum) => {
                assert forall|j: int| 0 <= j < front.len() implies (#[trigger] params[j]).data_type
                    == DataType::Int by {
                    assert(front[j] == params[j]);
                }
                if params.last().data_type != DataType::Int {
                    assert(params[params.len() - 1] == params.last());
                }
            },
        }
    }
}

/// A parameter without a storage size among the first `n` fails the whole
/// list with the same error.
pub proof fn lemma_params_size_fails(params: Seq<ParamDeclView>, n: int)
    requires
        0 <= n <= params.len(),
        params_size(params.take(n)) is Err,
    ensures
        params_size(params) == params_size(params.take(n)),
    decreases params.len() - n,
{
    if n < params.len() {
        assert(params.take(n + 1).drop_last() == params.take(n));
        lemma_params_size_fails(params, n + 1);
    } else {
        assert(params.take(n) == params);
    }
}

impl DataType {
    /// The storage size of a value of this type in bytes.
    pub fn get_size(&self) -> (r: Result<u32, UnsupportedConstructError>)
        ensures
            match type_size(*self) {
                Ok(size) => r == Ok::<u32, UnsupportedConstructError>(size as u32),
                Err(e) => r == Err::<u32, UnsupportedConstructError>(e),
            },
    {
        match self {
            DataType::Int => Ok(4),
            _ => Err(UnsupportedConstructError::ParamType(*self)),
        }
    }
}

/// The bytes needed to keep the parameters of `func` in its frame: four
/// for each `Int` parameter. A parameter of another type is refused, and
/// so is a sum that 32 bits do not hold.
pub fn size_args_local(func: &FuncDecl) -> (r: Result<u32, UnsupportedConstructError>)
    ensures
        match args_local_size(func@.params) {
            Ok(size) => r == Ok::<u32, UnsupportedConstructError>(size as u32),
            Err(e) => r == Err::<u32, UnsupportedConstructError>(e),
        },
        (forall|i: int|
            0 <= i < func@.params.len() ==> (#[trigger] func@.params[i]).data_type
                == DataType::Int) && 4 * func@.params.len() <= u32::MAX ==> r == Ok::<
            u32,
            UnsupportedConstructError,
        >((4 * func@.params.len()) as u32),
{
    let ghost params = func@.params;
    let mut sum: u32 = 0;
    let mut too_large = false;
    let mut i: usize = 0;
    while i < func.params.len()
        invariant
            i <= func.params.len(),
            params == func@.params,
            params.len() == func.params.len(),
            match params_size(params.take(i as int)) {
                Ok(s) => if too_large {
                    s > u32::MAX
                } else {
                    s == sum
                },
                Err(_) => false,
            },
        decreases func.params.len() - i,
    {
        proof {
            assert(params.take(i + 1).drop_last() == params.take(i as int));
            assert(params.take(i + 1).last() == func.params[i as int]@);
            if type_size(func.params[i as int].data_type) is Err {
                lemma_params_size_fails(params, i + 1);
            }
        }
        let size = func.params[i].data_type.get_size()?;
        if !too_large {
            if sum > u32::MAX - size {
                too_large = true;
            } else {
                sum = sum + size;
            }
        }
        i = i + 1;
    }
    proof {
        assert(params.take(i as int) == params);
        lemma_params_size(params);
    }
    if too_large {
        Err(UnsupportedConstructError::FrameTooLarge)
    } else {
        Ok(sum)
    }
}

/// Rounds a byte count up to the stack alignment of 16.
pub fn get_sp_offset(size: u32) -> (offset: u32)
    requires
        size <= MAX_FRAME_INPUT,
    ensures
        offset == frame_size(size as nat),
        offset % 16 == 0,
        size <= offset < size + 16,
        (offset == 0) == (size == 0),
{
    let whole: u32 = size / 16;
    let extra: u32 = if size % 16 == 0 { 0 } else { 1 };
    16 * (whole + extra)
}

} // verus!
