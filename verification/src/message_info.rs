use vstd::prelude::*;

verus! {

/// The operation tags a message record can carry. Tags `0..18` are the
/// defined operations; every other wire value decodes to `UnknownLabel`,
/// an explicit classification rather than undefined behaviour.
#[derive(Clone, Copy, Debug, PartialEq, Eq, Structural)]
pub enum AsyncMessageLabel {
    UntypedRetype,
    PutChar,
    RISCVPageTableMap,
    RISCVPageTableUnmap,
    RISCVPageMap,
    RISCVPageUnmap,
    RISCVPageGetAddress,
    CNodeRevoke,
    CNodeDelete,
    CNodeCancelBadgedSends,
    CNodeCopy,
    CNodeMint,
    CNodeMove,
    CNodeMutate,
    CNodeRotate,
    TCBBindNotification,
    TCBUnbindNotification,
    PutString,
    UnknownLabel,
}

/// The wire encoding of a label. `UnknownLabel` encodes as the first
/// value outside the defined range.
pub open spec fn spec_label_code(label: AsyncMessageLabel) -> u32 {
    match label {
        AsyncMessageLabel::UntypedRetype => 0,
        AsyncMessageLabel::PutChar => 1,
        AsyncMessageLabel::RISCVPageTableMap => 2,
        AsyncMessageLabel::RISCVPageTableUnmap => 3,
        AsyncMessageLabel::RISCVPageMap => 4,
        AsyncMessageLabel::RISCVPageUnmap => 5,
        AsyncMessageLabel::RISCVPageGetAddress => 6,
        AsyncMessageLabel::CNodeRevoke => 7,
        AsyncMessageLabel::CNodeDelete => 8,
        AsyncMessageLabel::CNodeCancelBadgedSends => 9,
        AsyncMessageLabel::CNodeCopy => 10,
        AsyncMessageLabel::CNodeMint => 11,
        AsyncMessageLabel::CNodeMove => 12,
        AsyncMessageLabel::CNodeMutate => 13,
        AsyncMessageLabel::CNodeRotate => 14,
        AsyncMessageLabel::TCBBindNotification => 15,
        AsyncMessageLabel::TCBUnbindNotification => 16,
        AsyncMessageLabel::PutString => 17,
        AsyncMessageLabel::UnknownLabel => 18,
    }
}

/// The label a wire value decodes to: the matching defined operation for
/// `0..18`, `UnknownLabel` for everything else.
pub open spec fn spec_label_of(value: u32) -> AsyncMessageLabel {
    if value == 0 {
        AsyncMessageLabel::UntypedRetype
    } else if value == 1 {
        AsyncMessageLabel::PutChar
    } else if value == 2 {
        AsyncMessageLabel::RISCVPageTableMap
    } else if value == 3 {
        AsyncMessageLabel::RISCVPageTableUnmap
    } else if value == 4 {
        AsyncMessageLabel::RISCVPageMap
    } else if value == 5 {
        AsyncMessageLabel::RISCVPageUnmap
    } else if value == 6 {
        AsyncMessageLabel::RISCVPageGetAddress
    } else if value == 7 {
        AsyncMessageLabel::CNodeRevoke
    } else if value == 8 {
        AsyncMessageLabel::CNodeDelete
    } else if value == 9 {
        AsyncMessageLabel::CNodeCancelBadgedSends
    } else if value == 10 {
        AsyncMessageLabel::CNodeCopy
    } else if value == 11 {
        AsyncMessageLabel::CNodeMint
    } else if value == 12 {
        AsyncMessageLabel::CNodeMove
    } else if value == 13 {
        AsyncMessageLabel::CNodeMutate
    } else if value == 14 {
        AsyncMessageLabel::CNodeRotate
    } else if value == 15 {
        AsyncMessageLabel::TCBBindNotification
    } else if value == 16 {
        AsyncMessageLabel::TCBUnbindNotification
    } else if value == 17 {
        AsyncMessageLabel::PutString
    } else {
        AsyncMessageLabel::UnknownLabel
    }
}

impl AsyncMessageLabel {
    /// Decodes a wire value; any value outside the defined range yields
    /// `UnknownLabel`.
    pub fn from_u32(value: u32) -> (r: Self)
        ensures
            r == spec_label_of(value),
    {
        match value {
            0 => AsyncMessageLabel::UntypedRetype,
            1 => AsyncMessageLabel::PutChar,
            2 => AsyncMessageLabel::RISCVPageTableMap,
            3 => AsyncMessageLabel::RISCVPageTableUnmap,
            4 => AsyncMessageLabel::RISCVPageMap,
            5 => AsyncMessageLabel::RISCVPageUnmap,
            6 => AsyncMessageLabel::RISCVPageGetAddress,
            7 => AsyncMessageLabel::CNodeRevoke,
            8 => AsyncMessageLabel::CNodeDelete,
            9 => AsyncMessageLabel::CNodeCancelBadgedSends,
            10 => AsyncMessageLabel::CNodeCopy,
            11 => AsyncMessageLabel::CNodeMint,
            12 => AsyncMessageLabel::CNodeMove,
            13 => AsyncMessageLabel::CNodeMutate,
            14 => AsyncMessageLabel::CNodeRotate,
            15 => AsyncMessageLabel::TCBBindNotification,
            16 => AsyncMessageLabel::TCBUnbindNotification,
            17 => AsyncMessageLabel::PutString,
            _ => AsyncMessageLabel::UnknownLabel,
        }
    }

    /// Encodes the label as its wire value.
    pub fn as_u32(&self) -> (r: u32)
        ensures
            r == spec_label_code(*self),
    {
        match *self {
            AsyncMessageLabel::UntypedRetype => 0,
            AsyncMessageLabel::PutChar => 1,
            AsyncMessageLabel::RISCVPageTableMap => 2,
            AsyncMessageLabel::RISCVPageTableUnmap => 3,
            AsyncMessageLabel::RISCVPageMap => 4,
            AsyncMessageLabel::RISCVPageUnmap => 5,
            AsyncMessageLabel::RISCVPageGetAddress => 6,
            AsyncMessageLabel::CNodeRevoke => 7,
            AsyncMessageLabel::CNodeDelete => 8,
            AsyncMessageLabel::CNodeCancelBadgedSends => 9,
            AsyncMessageLabel::CNodeCopy => 10,
            AsyncMessageLabel::CNodeMint => 11,
            AsyncMessageLabel::CNodeMove => 12,
            AsyncMessageLabel::CNodeMutate => 13,
            AsyncMessageLabel::CNodeRotate => 14,
            AsyncMessageLabel::TCBBindNotification => 15,
            AsyncMessageLabel::TCBUnbindNotification => 16,
            AsyncMessageLabel::PutString => 17,
            AsyncMessageLabel::UnknownLabel => 18,
        }
    }
}

/// Every defined operation survives the round trip through its wire
/// value, and decoding any wire value re-encodes to itself exactly on the
/// defined range — everything outside it collapses to `UnknownLabel`.
pub proof fn lemma_label_round_trip(label: AsyncMessageLabel, value: u32)
    ensures
        spec_label_of(spec_label_code(label)) == label,
        value < 18 ==> spec_label_code(spec_label_of(value)) == value,
        value >= 18 ==> spec_label_of(value) == AsyncMessageLabel::UnknownLabel,
{
}

/// The error classification a reply can carry in its first extension
/// word: success, or a failed proxied operation.
#[derive(Clone, Copy, Debug, PartialEq, Eq, Structural)]
pub enum AsyncErrorLabel {
    NoError,
    SyscallError,
}

impl AsyncErrorLabel {
    /// Decodes the error word: zero is success, everything else reports a
    /// failed operation.
    pub fn from_u16(value: u16) -> (r: Self)
        ensures
            r == (if value == 0 {
                AsyncErrorLabel::NoError
            } else {
                AsyncErrorLabel::SyscallError
            }),
    {
        if value == 0 {
            AsyncErrorLabel::NoError
        } else {
            AsyncErrorLabel::SyscallError
        }
    }

    /// Encodes the classification as its wire word.
    pub fn as_u16(&self) -> (r: u16)
        ensures
            r == (if *self is NoError {
                0u16
            } else {
                1u16
            }),
    {
        match *self {
            AsyncErrorLabel::NoError => 0,
            AsyncErrorLabel::SyscallError => 1,
        }
    }
}

} // verus!
