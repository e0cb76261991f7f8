//! Turning a growing buffer of received bytes into responses.

use vstd::prelude::*;
use crate::parser::{parse_streamed_response, spec_parse_streamed, ParseError};
use crate::response::Response;

verus! {

/// Reads one response at a time from the front of a receive buffer.
#[derive(Default, Debug)]
pub struct ImapCodec;

impl ImapCodec {
    /// Takes the response at the front of `src` off it. Where `src` holds only part of a
    /// response, nothing is taken and there is no response yet; where its front can never be
    /// a response, that is an error and `src` is left as it was.
    pub fn decode(&mut self, src: &mut Vec<u8>) -> (r: Result<Option<Response>, ParseError>)
        ensures
            spec_parse_streamed(old(src)@) matches Ok((m, n)) ==> (r matches Ok(Some(v))
                && v.deep_view() == m && final(src)@ == old(src)@.subrange(n, old(src)@.len() as int)),
            spec_parse_streamed(old(src)@) == Err::<(crate::response::ResponseModel, int), ParseError>(
                ParseError::Incomplete,
            ) ==> (r matches Ok(None) && final(src)@ == old(src)@),
            spec_parse_streamed(old(src)@) == Err::<(crate::response::ResponseModel, int), ParseError>(
                ParseError::Malformed,
            ) ==> (r matches Err(ParseError::Malformed) && final(src)@ == old(src)@),
    {
        match parse_streamed_response(src.as_slice()) {
            Ok((resp, n)) => {
                let rest = vstd::slice::slice_to_vec(&src.as_slice()[n..src.len()]);
                *src = rest;
                Ok(Some(resp))
            },
            Err(ParseError::Incomplete) => Ok(None),
            Err(ParseError::Malformed) => Err(ParseError::Malformed),
        }
    }
}

} // verus!
