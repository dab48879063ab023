//! Command `program`.

use crate::hexadecimal::{
    decode_prefixed, hex_decode, hex_encode, hex_text, is_hex, is_hex_of,
    lemma_reading_decides, not_hex, stripped, to_hash, HexError,
};
use vstd::prelude::*;
use vstd::string::StringExecFns;
use vstd::utf8::encode_utf8;

verus! {

/// What to do with a program.
#[derive(Clone, Debug, PartialEq, Eq)]
pub enum Action {
    /// Read the program's state.
    State {
        /// The input message for reading the state, in hexadecimal.
        msg: String,
        /// The block timestamp to read at.
        timestamp: Option<u64>,
        /// The block height to read at.
        height: Option<u64>,
    },
}

/// Read a program's state, etc.
#[derive(Clone, Debug, PartialEq, Eq)]
pub struct Program {
    /// The program's id, in hexadecimal, with or without `0x` in front.
    pub pid: String,
    /// What to do with the program.
    pub action: Action,
}

/// Why a text is no program id.
#[derive(Clone, Copy, Debug, PartialEq, Eq)]
pub enum PidError {
    /// The text is not hexadecimal.
    Hex(HexError),
    /// The text stands for this many bytes, not for 32.
    Length(usize),
}

/// The arguments of a state query, ready for the reader.
#[derive(Clone, Debug, PartialEq, Eq)]
pub struct StateQuery {
    /// The input message.
    pub msg: Vec<u8>,
    /// The block timestamp to read at; 0 where the user gave none.
    pub timestamp: u64,
    /// The block height to read at; 0 where the user gave none.
    pub height: u64,
}

impl Program {
    /// The bytes that the program's id stands for: those of its hexadecimal digits
    /// behind any `0x`, which must be 32.
    pub fn pid_bytes(&self) -> (pid: Result<[u8; 32], PidError>)
        ensures
            pid is Ok <==> is_hex(stripped(encode_utf8(self.pid@))) && stripped(
                encode_utf8(self.pid@),
            ).len() == 64,
            match pid {
                Ok(bytes) => is_hex_of(stripped(encode_utf8(self.pid@)), bytes@),
                Err(PidError::Hex(error)) => not_hex(stripped(encode_utf8(self.pid@)), error),
                Err(PidError::Length(n)) => n != 32 && exists|bytes: Seq<u8>|
                    bytes.len() == n && #[trigger] is_hex_of(
                        stripped(encode_utf8(self.pid@)),
                        bytes,
                    ),
            },
    {
        let read = decode_prefixed(self.pid.as_str());
        proof {
            lemma_reading_decides(stripped(encode_utf8(self.pid@)), read);
        }
        match read {
            Err(error) => Err(PidError::Hex(error)),
            Ok(bytes) => match to_hash(&bytes) {
                Some(pid) => Ok(pid),
                None => {
                    assert(is_hex_of(stripped(encode_utf8(self.pid@)), bytes@));
                    Err(PidError::Length(bytes.len()))
                },
            },
        }
    }

    /// The arguments of the state query that the action asks for: the input message
    /// read from hexadecimal, and 0 for a timestamp or a height that was not given.
    pub fn state_query(&self) -> (query: Result<StateQuery, HexError>)
        ensures
            query is Ok <==> is_hex(encode_utf8(self.action->msg@)),
            match (self.action, query) {
                (Action::State { msg, timestamp, height }, Ok(q)) => {
                    &&& is_hex_of(encode_utf8(msg@), q.msg@)
                    &&& q.timestamp == timestamp.unwrap_or(0)
                    &&& q.height == height.unwrap_or(0)
                },
                (Action::State { msg, .. }, Err(error)) => not_hex(
                    encode_utf8(msg@),
                    error,
                ),
            },
    {
        match &self.action {
            Action::State { msg, timestamp, height } => {
                let read = hex_decode(msg.as_str().as_bytes());
                proof {
                    lemma_reading_decides(encode_utf8(msg@), read);
                }
                let read = read?;
                Ok(
                    StateQuery {
                        msg: read,
                        timestamp: match timestamp {
                            Some(t) => *t,
                            None => 0,
                        },
                        height: match height {
                            Some(h) => *h,
                            None => 0,
                        },
                    },
                )
            },
        }
    }

    /// The line that reports a program's state: the state in hexadecimal behind
    /// `state: 0x`.
    pub fn state_line(state: &[u8]) -> (line: String)
        ensures
            line@ == "state: 0x"@ + hex_text(state@),
    {
        let digits = hex_encode(state);
        String::from_str("state: 0x").concat(digits.as_str())
    }
}

} // verus!
