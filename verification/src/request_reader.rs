//! A line reader over an in-memory request buffer: each line must end in
//! CRLF, which is stripped; the surrounding glue fills the buffer from its
//! transport.

use vstd::prelude::*;
use vstd::utf8::{decode_utf8, valid_utf8};

use crate::bytes_util::{copy_range, find_sub, find_sub_at, lemma_find_sub_bounds};
use crate::text::decode_utf8_vec;

verus! {

/// Why a line could not be read.
#[derive(Debug)]
pub enum Error {
    /// The bytes of the line are not valid UTF-8; carries a description.
    ReadFailed(String),
    /// The line does not end with CRLF.
    NoCRLF,
}

/// A pull-based line reader over the remaining bytes of a request.
pub struct Reader {
    pub data: Vec<u8>,
}

/// What one `next` call yields and consumes, as a function of the remaining
/// bytes: nothing at end of input; otherwise the bytes up to and including
/// the first line feed (or everything, without one) leave the buffer, and
/// they must decode as UTF-8 and end in CRLF to yield the stripped line.
pub open spec fn next_post(old_data: Seq<u8>, r: Option<Result<String, Error>>, new_data: Seq<u8>) -> bool {
    if old_data.len() == 0 {
        r is None && new_data == old_data
    } else {
        match find_sub(old_data, seq![10u8], 0) {
            None => new_data.len() == 0 && match r {
                Some(Err(Error::ReadFailed(m))) => !valid_utf8(old_data) && m@
                    == "line is not valid UTF-8"@,
                Some(Err(Error::NoCRLF)) => valid_utf8(old_data),
                _ => false,
            },
            Some(j) => {
                let line = old_data.subrange(0, j + 1);
                new_data == old_data.subrange(j + 1, old_data.len() as int) && match r {
                    Some(Err(Error::ReadFailed(m))) => !valid_utf8(line) && m@
                        == "line is not valid UTF-8"@,
                    Some(Err(Error::NoCRLF)) => valid_utf8(line) && !(j >= 1 && old_data[j - 1]
                        == 13),
                    Some(Ok(s)) => valid_utf8(line) && j >= 1 && old_data[j - 1] == 13 && s@
                        == decode_utf8(old_data.subrange(0, j - 1)),
                    _ => false,
                }
            },
        }
    }
}

impl Reader {
    pub fn new(inner: Vec<u8>) -> (r: Reader)
        ensures
            r.data == inner,
    {
        Reader { data: inner }
    }

    /// The bytes not yet consumed by line reads.
    pub fn inner(&mut self) -> (r: &mut Vec<u8>)
        ensures
            r@ == old(self).data@,
            final(self).data == *final(r),
    {
        &mut self.data
    }

    /// Reads the next CRLF-terminated line, stripping the terminator.
    pub fn next(&mut self) -> (r: Option<Result<String, Error>>)
        ensures
            next_post(old(self).data@, r, final(self).data@),
    {
        let n = self.data.len();
        if n == 0 {
            return None;
        }
        let mut lf: Vec<u8> = Vec::new();
        lf.push(10);
        proof {
            assert(lf@ =~= seq![10u8]);
        }
        match find_sub_at(&self.data, &lf, 0) {
            None => {
                let line = copy_range(&self.data, 0, n);
                self.data = Vec::new();
                proof {
                    assert(line@ =~= old(self).data@);
                }
                match decode_utf8_vec(&line) {
                    Some(_) => Some(Err(Error::NoCRLF)),
                    None => Some(
                        Err(Error::ReadFailed(String::from_str("line is not valid UTF-8"))),
                    ),
                }
            },
            Some(j) => {
                proof {
                    lemma_find_sub_bounds(old(self).data@, seq![10u8], 0);
                }
                let line = copy_range(&self.data, 0, j + 1);
                let rest = copy_range(&self.data, j + 1, n);
                self.data = rest;
                match decode_utf8_vec(&line) {
                    None => Some(
                        Err(Error::ReadFailed(String::from_str("line is not valid UTF-8"))),
                    ),
                    Some(_) => {
                        if j >= 1 && line[j - 1] == 13 {
                            let body = copy_range(&line, 0, j - 1);
                            proof {
                                assert(line@.subrange(0, j - 1) =~= old(self).data@.subrange(
                                    0,
                                    j - 1,
                                ));
                                assert(!vstd::utf8::is_continuation_byte(line@[j - 1]));
                                vstd::utf8::is_char_boundary_iff_not_is_continuation_byte(
                                    line@,
                                    j - 1,
                                );
                                vstd::utf8::valid_utf8_split(line@, j - 1);
                            }
                            match decode_utf8_vec(&body) {
                                Some(s) => Some(Ok(s)),
                                None => {
                                    proof {
                                        assert(false);
                                    }
                                    None
                                },
                            }
                        } else {
                            Some(Err(Error::NoCRLF))
                        }
                    },
                }
            },
        }
    }
}

} // verus!
