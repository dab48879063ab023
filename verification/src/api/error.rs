//! Failures: those the chain reports for a transaction, and those of reading its events.

use vstd::prelude::*;

verus! {

/// Why bytes could not be read as the value they were taken for.
#[derive(Debug, PartialEq, Eq)]
pub enum DecodeError {
    /// The bytes end before the value does.
    UnexpectedEnd,
    /// A tag byte that names no variant.
    UnknownVariant(u8),
    /// The bytes do not fit the metadata in force; the text is the decoder's own.
    Mismatch(String),
}

impl Clone for DecodeError {
    fn clone(&self) -> (copy: Self)
        ensures
            copy == *self,
    {
        match self {
            DecodeError::UnexpectedEnd => DecodeError::UnexpectedEnd,
            DecodeError::UnknownVariant(tag) => DecodeError::UnknownVariant(*tag),
            DecodeError::Mismatch(text) => DecodeError::Mismatch(text.clone()),
        }
    }
}

/// A pull on the node's event stream failed; the text is the transport's own.
#[derive(Debug, PartialEq, Eq)]
pub struct TransportError {
    pub message: String,
}

impl Clone for TransportError {
    fn clone(&self) -> (copy: Self)
        ensures
            copy == *self,
    {
        TransportError { message: self.message.clone() }
    }
}

/// Why a wait on the event stream broke off.
#[derive(Clone, Debug, PartialEq, Eq)]
pub enum WaitError {
    /// The pull of the next batch failed.
    Transport(TransportError),
    /// A record that the wait came to could not be decoded.
    Decode(DecodeError),
}

/// The raw bytes of a module error: the pallet it came from and the error's own bytes.
#[derive(Clone, Copy, Debug, PartialEq, Eq)]
pub struct ModuleErrorData {
    /// Index of the pallet that raised the error.
    pub pallet_index: u8,
    /// The error as the pallet encoded it.
    pub error: [u8; 4],
}

impl ModuleErrorData {
    /// The error's index within its pallet: the first of the error bytes.
    pub fn error_index(&self) -> (index: u8)
        ensures
            index == self.error[0],
    {
        self.error[0]
    }
}

/// Why an operation on an account's funds was refused.
#[derive(Clone, Copy, Debug, PartialEq, Eq)]
pub enum TokenError {
    NoFunds,
    WouldDie,
    BelowMinimum,
    CannotCreate,
    UnknownAsset,
    Frozen,
    Unsupported,
}

/// Which arithmetic fault stopped a call.
#[derive(Clone, Copy, Debug, PartialEq, Eq)]
pub enum ArithmeticError {
    Underflow,
    Overflow,
    DivisionByZero,
}

/// Which fault of the transactional layers stopped a call.
#[derive(Clone, Copy, Debug, PartialEq, Eq)]
pub enum TransactionalError {
    LimitReached,
    NoLayer,
}

/// The code with which the chain rejects a transaction.
///
/// On the wire it is one tag byte, the variant's position in this list from 0, and
/// then what the variant holds: for `Module` the pallet index and the four error
/// bytes, for `Token`, `Arithmetic` and `Transactional` one more tag byte.
#[derive(Clone, Copy, Debug, PartialEq, Eq)]
pub enum DispatchError {
    Other,
    CannotLookup,
    BadOrigin,
    Module(ModuleErrorData),
    ConsumerRemaining,
    NoProviders,
    TooManyConsumers,
    Token(TokenError),
    Arithmetic(ArithmeticError),
    Transactional(TransactionalError),
}

/// A rejection by a pallet, under the names that the metadata gives it.
#[derive(Clone, Debug, PartialEq, Eq)]
pub struct ModuleError {
    /// The name of the pallet that raised the error.
    pub pallet: String,
    /// The name of the error.
    pub error: String,
    /// The error's documentation, line by line.
    pub description: Vec<String>,
    /// The error as the chain sent it.
    pub error_data: ModuleErrorData,
}

/// A [`ModuleError`] as mathematics.
pub struct ModuleErrorView {
    pub pallet: Seq<char>,
    pub error: Seq<char>,
    pub description: Seq<Seq<char>>,
    pub error_data: ModuleErrorData,
}

impl View for ModuleError {
    type V = ModuleErrorView;

    open spec fn view(&self) -> ModuleErrorView {
        ModuleErrorView {
            pallet: self.pallet@,
            error: self.error@,
            description: self.description.deep_view(),
            error_data: self.error_data,
        }
    }
}

/// A rejection that the metadata has no name for: the code as the chain sent it.
#[derive(Clone, Copy, Debug, PartialEq, Eq)]
pub struct RuntimeError(pub DispatchError);

/// Why a transaction's events do not confirm it.
#[derive(Clone, Debug, PartialEq, Eq)]
pub enum OutcomeError {
    /// A record that had to be read could not be decoded.
    Decode(DecodeError),
    /// A pallet rejected the transaction, and the metadata names the error.
    Module(ModuleError),
    /// The chain rejected the transaction with a code that the metadata does not name.
    Runtime(RuntimeError),
}

/// An [`OutcomeError`] as mathematics.
pub enum OutcomeErrorView {
    Decode(DecodeError),
    Module(ModuleErrorView),
    Runtime(RuntimeError),
}

impl View for OutcomeError {
    type V = OutcomeErrorView;

    open spec fn view(&self) -> OutcomeErrorView {
        match *self {
            OutcomeError::Decode(e) => OutcomeErrorView::Decode(e),
            OutcomeError::Module(e) => OutcomeErrorView::Module(e@),
            OutcomeError::Runtime(e) => OutcomeErrorView::Runtime(e),
        }
    }
}

impl TokenError {
    /// The byte that stands for this variant.
    pub open spec fn tag(self) -> u8 {
        match self {
            TokenError::NoFunds => 0,
            TokenError::WouldDie => 1,
            TokenError::BelowMinimum => 2,
            TokenError::CannotCreate => 3,
            TokenError::UnknownAsset => 4,
            TokenError::Frozen => 5,
            TokenError::Unsupported => 6,
        }
    }

    /// The variant that `tag` stands for, if any.
    pub fn from_tag(tag: u8) -> (found: Option<TokenError>)
        ensures
            found matches Some(t) ==> t.tag() == tag,
            found is None <==> tag > 6,
    {
        match tag {
            0 => Some(TokenError::NoFunds),
            1 => Some(TokenError::WouldDie),
            2 => Some(TokenError::BelowMinimum),
            3 => Some(TokenError::CannotCreate),
            4 => Some(TokenError::UnknownAsset),
            5 => Some(TokenError::Frozen),
            6 => Some(TokenError::Unsupported),
            _ => None,
        }
    }
}

impl ArithmeticError {
    /// The byte that stands for this variant.
    pub open spec fn tag(self) -> u8 {
        match self {
            ArithmeticError::Underflow => 0,
            ArithmeticError::Overflow => 1,
            ArithmeticError::DivisionByZero => 2,
        }
    }

    /// The variant that `tag` stands for, if any.
    pub fn from_tag(tag: u8) -> (found: Option<ArithmeticError>)
        ensures
            found matches Some(a) ==> a.tag() == tag,
            found is None <==> tag > 2,
    {
        match tag {
            0 => Some(ArithmeticError::Underflow),
            1 => Some(ArithmeticError::Overflow),
            2 => Some(ArithmeticError::DivisionByZero),
            _ => None,
        }
    }
}

impl TransactionalError {
    /// The byte that stands for this variant.
    pub open spec fn tag(self) -> u8 {
        match self {
            TransactionalError::LimitReached => 0,
            TransactionalError::NoLayer => 1,
        }
    }

    /// The variant that `tag` stands for, if any.
    pub fn from_tag(tag: u8) -> (found: Option<TransactionalError>)
        ensures
            found matches Some(t) ==> t.tag() == tag,
            found is None <==> tag > 1,
    {
        match tag {
            0 => Some(TransactionalError::LimitReached),
            1 => Some(TransactionalError::NoLayer),
            _ => None,
        }
    }
}

impl DispatchError {
    /// The bytes that stand for this code on the wire.
    pub open spec fn encoding(self) -> Seq<u8> {
        match self {
            DispatchError::Other => seq![0u8],
            DispatchError::CannotLookup => seq![1u8],
            DispatchError::BadOrigin => seq![2u8],
            DispatchError::Module(data) => seq![3u8, data.pallet_index] + data.error@,
            DispatchError::ConsumerRemaining => seq![4u8],
            DispatchError::NoProviders => seq![5u8],
            DispatchError::TooManyConsumers => seq![6u8],
            DispatchError::Token(e) => seq![7u8, e.tag()],
            DispatchError::Arithmetic(e) => seq![8u8, e.tag()],
            DispatchError::Transactional(e) => seq![9u8, e.tag()],
        }
    }

    /// What the front of `data` reads as: the code whose encoding `data` starts with,
    /// or why there is none.
    pub open spec fn decoded(data: Seq<u8>) -> Result<DispatchError, DecodeError> {
        if exists|code: DispatchError| #[trigger] code.encoding().is_prefix_of(data) {
            Ok(choose|code: DispatchError| #[trigger] code.encoding().is_prefix_of(data))
        } else if data.len() == 0 {
            Err(DecodeError::UnexpectedEnd)
        } else if data[0] > 9 {
            Err(DecodeError::UnknownVariant(data[0]))
        } else if data[0] == 3 {
            Err(DecodeError::UnexpectedEnd)
        } else if data.len() == 1 {
            Err(DecodeError::UnexpectedEnd)
        } else {
            Err(DecodeError::UnknownVariant(data[1]))
        }
    }

    /// Reads the code at the front of `data`; the bytes behind it are left alone.
    pub fn decode(data: &[u8]) -> (read: Result<DispatchError, DecodeError>)
        ensures
            read == Self::decoded(data@),
    {
        if data.len() == 0 {
            proof {
                lemma_no_encoding_fits(data@);
            }
            return Err(DecodeError::UnexpectedEnd);
        }
        let tag = data[0];
        if tag > 9 {
            proof {
                lemma_no_encoding_fits(data@);
            }
            return Err(DecodeError::UnknownVariant(tag));
        }
        if tag == 3 {
            if data.len() < 6 {
                proof {
                    lemma_no_encoding_fits(data@);
                }
                return Err(DecodeError::UnexpectedEnd);
            }
            let module = ModuleErrorData {
                pallet_index: data[1],
                error: [data[2], data[3], data[4], data[5]],
            };
            let code = DispatchError::Module(module);
            proof {
                assert(code.encoding() =~= data@.subrange(0, 6));
                lemma_encoding_fits_once(code, data@);
            }
            return Ok(code);
        }
        if tag == 7 || tag == 8 || tag == 9 {
            if data.len() < 2 {
                proof {
                    lemma_no_encoding_fits(data@);
                }
                return Err(DecodeError::UnexpectedEnd);
            }
            let inner = data[1];
            let found = if tag == 7 {
                match TokenError::from_tag(inner) {
                    Some(e) => Some(DispatchError::Token(e)),
                    None => None,
                }
            } else if tag == 8 {
                match ArithmeticError::from_tag(inner) {
                    Some(e) => Some(DispatchError::Arithmetic(e)),
                    None => None,
                }
            } else {
                match TransactionalError::from_tag(inner) {
                    Some(e) => Some(DispatchError::Transactional(e)),
                    None => None,
                }
            };
            return match found {
                Some(code) => {
                    proof {
                        assert(code.encoding() =~= data@.subrange(0, 2));
                        lemma_encoding_fits_once(code, data@);
                    }
                    Ok(code)
                },
                None => {
                    proof {
                        lemma_no_encoding_fits(data@);
                    }
                    Err(DecodeError::UnknownVariant(inner))
                },
            };
        }
        let code = if tag == 0 {
            DispatchError::Other
        } else if tag == 1 {
            DispatchError::CannotLookup
        } else if tag == 2 {
            DispatchError::BadOrigin
        } else if tag == 4 {
            DispatchError::ConsumerRemaining
        } else if tag == 5 {
            DispatchError::NoProviders
        } else {
            DispatchError::TooManyConsumers
        };
        proof {
            assert(code.encoding() =~= data@.subrange(0, 1));
            lemma_encoding_fits_once(code, data@);
        }
        Ok(code)
    }

    /// The data of a module error, where the code is one.
    pub fn module_error_data(&self) -> (data: Option<ModuleErrorData>)
        ensures
            data == match *self {
                DispatchError::Module(d) => Some(d),
                _ => None,
            },
    {
        match self {
            DispatchError::Module(d) => Some(*d),
            _ => None,
        }
    }
}

/// The front of `data` holds a code: its tag byte names a variant, the variant's
/// bytes are all there, and an inner tag byte names a variant too.
pub open spec fn holds_code(data: Seq<u8>) -> bool {
    &&& data.len() >= 1
    &&& data[0] <= 9
    &&& data[0] == 3 ==> data.len() >= 6
    &&& data[0] == 7 ==> data.len() >= 2 && data[1] <= 6
    &&& data[0] == 8 ==> data.len() >= 2 && data[1] <= 2
    &&& data[0] == 9 ==> data.len() >= 2 && data[1] <= 1
}

/// No two codes share a front: of the encodings that `data` starts with there is
/// at most one.
pub proof fn lemma_encoding_prefix_free(a: DispatchError, b: DispatchError, data: Seq<u8>)
    requires
        a.encoding().is_prefix_of(data),
        b.encoding().is_prefix_of(data),
    ensures
        a == b,
{
    let ea = a.encoding();
    let eb = b.encoding();
    assert(ea[0] == data[0] && eb[0] == data[0]);
    match (a, b) {
        (DispatchError::Module(x), DispatchError::Module(y)) => {
            assert(ea[1] == data[1] && eb[1] == data[1]);
            assert forall|i: int| 0 <= i < 4 implies x.error@[i] == y.error@[i] by {
                assert(ea[i + 2] == data[i + 2] && eb[i + 2] == data[i + 2]);
            }
            assert(x.error@ =~= y.error@);
            vstd::array::axiom_array_ext_equal(x.error, y.error);
        },
        (DispatchError::Token(x), DispatchError::Token(y)) => {
            assert(ea[1] == data[1] && eb[1] == data[1]);
        },
        (DispatchError::Arithmetic(x), DispatchError::Arithmetic(y)) => {
            assert(ea[1] == data[1] && eb[1] == data[1]);
        },
        (DispatchError::Transactional(x), DispatchError::Transactional(y)) => {
            assert(ea[1] == data[1] && eb[1] == data[1]);
        },
        _ => {},
    }
}

/// Reading inverts writing: whatever bytes follow a code's encoding, the code is
/// read back from the front.
pub proof fn lemma_decode_round_trip(code: DispatchError, rest: Seq<u8>)
    ensures
        DispatchError::decoded(code.encoding() + rest) == Ok::<DispatchError, DecodeError>(code),
{
    let data = code.encoding() + rest;
    assert(data.subrange(0, code.encoding().len() as int) =~= code.encoding());
    lemma_encoding_fits_once(code, data);
}

/// A code is read exactly where the front of the bytes holds one.
pub proof fn lemma_decoded_ok_iff_holds_code(data: Seq<u8>)
    ensures
        DispatchError::decoded(data) is Ok <==> holds_code(data),
        DispatchError::decoded(data) matches Ok(code) ==> code.encoding().is_prefix_of(data),
{
    if !holds_code(data) {
        lemma_no_encoding_fits(data);
    } else {
        let tag = data[0];
        let code = if tag == 0 {
            DispatchError::Other
        } else if tag == 1 {
            DispatchError::CannotLookup
        } else if tag == 2 {
            DispatchError::BadOrigin
        } else if tag == 3 {
            let error = choose|error: [u8; 4]| error@ == data.subrange(2, 6);
            assert(exists|error: [u8; 4]| error@ == data.subrange(2, 6)) by {
                let e = [data[2], data[3], data[4], data[5]];
                assert(e@ =~= data.subrange(2, 6));
            }
            DispatchError::Module(ModuleErrorData { pallet_index: data[1], error })
        } else if tag == 4 {
            DispatchError::ConsumerRemaining
        } else if tag == 5 {
            DispatchError::NoProviders
        } else if tag == 6 {
            DispatchError::TooManyConsumers
        } else if tag == 7 {
            DispatchError::Token(choose|e: TokenError| e.tag() == data[1])
        } else if tag == 8 {
            DispatchError::Arithmetic(choose|e: ArithmeticError| e.tag() == data[1])
        } else {
            DispatchError::Transactional(choose|e: TransactionalError| e.tag() == data[1])
        };
        if tag == 7 {
            lemma_token_tags(data[1]);
        } else if tag == 8 {
            lemma_arithmetic_tags(data[1]);
        } else if tag == 9 {
            lemma_transactional_tags(data[1]);
        }
        assert(code.encoding() =~= data.subrange(0, code.encoding().len() as int));
        lemma_encoding_fits_once(code, data);
    }
}

proof fn lemma_token_tags(tag: u8)
    requires
        tag <= 6,
    ensures
        exists|e: TokenError| e.tag() == tag,
{
    assert(TokenError::NoFunds.tag() == 0);
    assert(TokenError::WouldDie.tag() == 1);
    assert(TokenError::BelowMinimum.tag() == 2);
    assert(TokenError::CannotCreate.tag() == 3);
    assert(TokenError::UnknownAsset.tag() == 4);
    assert(TokenError::Frozen.tag() == 5);
    assert(TokenError::Unsupported.tag() == 6);
}

proof fn lemma_arithmetic_tags(tag: u8)
    requires
        tag <= 2,
    ensures
        exists|e: ArithmeticError| e.tag() == tag,
{
    assert(ArithmeticError::Underflow.tag() == 0);
    assert(ArithmeticError::Overflow.tag() == 1);
    assert(ArithmeticError::DivisionByZero.tag() == 2);
}

proof fn lemma_transactional_tags(tag: u8)
    requires
        tag <= 1,
    ensures
        exists|e: TransactionalError| e.tag() == tag,
{
    assert(TransactionalError::LimitReached.tag() == 0);
    assert(TransactionalError::NoLayer.tag() == 1);
}

/// Where `data` starts with the encoding of `code`, `code` is what is read.
proof fn lemma_encoding_fits_once(code: DispatchError, data: Seq<u8>)
    requires
        code.encoding().is_prefix_of(data),
    ensures
        DispatchError::decoded(data) == Ok::<DispatchError, DecodeError>(code),
{
    let chosen = choose|c: DispatchError| #[trigger] c.encoding().is_prefix_of(data);
    lemma_encoding_prefix_free(chosen, code, data);
}

/// Where the front of `data` holds no code, no encoding fits it.
proof fn lemma_no_encoding_fits(data: Seq<u8>)
    requires
        !holds_code(data),
    ensures
        forall|code: DispatchError| !#[trigger] code.encoding().is_prefix_of(data),
{
    assert forall|code: DispatchError| !#[trigger] code.encoding().is_prefix_of(data) by {
        let e = code.encoding();
        if e.is_prefix_of(data) {
            assert(e[0] == data[0]);
            match code {
                DispatchError::Module(m) => {
                    assert(e.len() == 6);
                },
                DispatchError::Token(t) => {
                    assert(e[1] == data[1]);
                },
                DispatchError::Arithmetic(t) => {
                    assert(e[1] == data[1]);
                },
                DispatchError::Transactional(t) => {
                    assert(e[1] == data[1]);
                },
                _ => {},
            }
        }
    }
}

} // verus!
