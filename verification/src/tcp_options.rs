//! Typed TCP options: the supported option kinds, their
//! serialization into the header's option bytes, and the decoder
//! that walks the option bytes and yields one result per option, so
//! that a malformed tail still leaves the options before it decoded.

use vstd::prelude::*;

use crate::bytes::{be16, be16_seq, be32, be32_seq, read_be16, read_be32, read_padded, write_be16, write_be32};
use crate::err::ValueError;
use crate::tcp::TcpHeader;
use vstd::slice::slice_subrange;

verus! {

broadcast use vstd::array::group_array_axioms;

/// Option kind bytes.
pub const KIND_END: u8 = 0;
pub const KIND_NOOP: u8 = 1;
pub const KIND_MSS: u8 = 2;
pub const KIND_WINDOW_SCALE: u8 = 3;
pub const KIND_SACK_PERMITTED: u8 = 4;
pub const KIND_SACK: u8 = 5;
pub const KIND_TIMESTAMP: u8 = 8;

/// One decoded TCP option. Unknown kinds are kept raw with their
/// declared length when that length is self-consistent.
#[derive(Clone, Copy, Debug, PartialEq, Eq)]
pub enum TcpOptionElement {
    Noop,
    MaximumSegmentSize(u16),
    WindowScale(u8),
    SelectiveAcknowledgementPermitted,
    /// One acknowledged block, and up to three more.
    SelectiveAcknowledgement((u32, u32), [Option<(u32, u32)>; 3]),
    Timestamp(u32, u32),
    Unknown { kind: u8, length: u8, data: [u8; 38] },
}

/// Why decoding an option failed. A malformed declared length is a
/// hard error: nothing after it can be framed.
#[derive(Clone, Copy, Debug, PartialEq, Eq)]
pub enum TcpOptionReadError {
    /// The option bytes ended inside the option of this kind.
    UnexpectedEndOfSlice(u8),
    /// The declared length does not fit the option of this kind.
    UnexpectedSize { option_id: u8, size: u8 },
}

impl TcpOptionElement {
    /// Shapes that serialize and decode back to themselves: an
    /// `Unknown` carries no recognized kind, a declared length that
    /// covers its data, zero padding beyond it; absent selective
    /// acknowledgement blocks trail the present ones.
    pub open spec fn wf(self) -> bool {
        match self {
            TcpOptionElement::Unknown { kind, length, data } => {
                &&& kind != KIND_END
                &&& kind != KIND_NOOP
                &&& kind != KIND_MSS
                &&& kind != KIND_WINDOW_SCALE
                &&& kind != KIND_SACK_PERMITTED
                &&& kind != KIND_SACK
                &&& kind != KIND_TIMESTAMP
                &&& 2 <= length <= 40
                &&& (forall|i: int| length - 2 <= i < 38 ==> data@[i] == 0)
            },
            TcpOptionElement::SelectiveAcknowledgement(_, blocks) => {
                &&& (blocks[0] is None ==> blocks[1] is None)
                &&& (blocks[1] is None ==> blocks[2] is None)
            },
            _ => true,
        }
    }

    /// The bytes this option contributes to the option run.
    pub open spec fn spec_bytes(self) -> Seq<u8> {
        match self {
            TcpOptionElement::Noop => seq![KIND_NOOP],
            TcpOptionElement::MaximumSegmentSize(v) => seq![KIND_MSS, 4u8] + be16_seq(v),
            TcpOptionElement::WindowScale(v) => seq![KIND_WINDOW_SCALE, 3u8, v],
            TcpOptionElement::SelectiveAcknowledgementPermitted => seq![KIND_SACK_PERMITTED, 2u8],
            TcpOptionElement::SelectiveAcknowledgement(first, blocks) => {
                let rest = (match blocks[0] {
                    Some(p) => be32_seq(p.0) + be32_seq(p.1),
                    None => Seq::<u8>::empty(),
                }) + (match blocks[1] {
                    Some(p) => be32_seq(p.0) + be32_seq(p.1),
                    None => Seq::<u8>::empty(),
                }) + (match blocks[2] {
                    Some(p) => be32_seq(p.0) + be32_seq(p.1),
                    None => Seq::<u8>::empty(),
                });
                seq![KIND_SACK, (10 + rest.len()) as u8] + be32_seq(first.0) + be32_seq(first.1)
                    + rest
            },
            TcpOptionElement::Timestamp(a, b) => seq![KIND_TIMESTAMP, 10u8] + be32_seq(a)
                + be32_seq(b),
            TcpOptionElement::Unknown { kind, length, data } => seq![kind, length] + data@.take(
                length - 2,
            ),
        }
    }
}

/// The concatenated bytes of a run of options.
pub open spec fn spec_options_serialize(s: Seq<TcpOptionElement>) -> Seq<u8>
    decreases s.len(),
{
    if s.len() == 0 {
        Seq::<u8>::empty()
    } else {
        spec_options_serialize(s.drop_last()) + s.last().spec_bytes()
    }
}

/// Zero bytes that pad a run of length `n` to a multiple of 4.
pub open spec fn spec_pad4(n: int) -> Seq<u8> {
    Seq::<u8>::new((((4 - n % 4) % 4)) as nat, |i: int| 0u8)
}

/// True when the selective acknowledgement blocks are what the
/// option bytes starting at `b` (with declared length `b[1]`)
/// decode to.
pub open spec fn spec_sack_blocks_match(b: Seq<u8>, blocks: [Option<(u32, u32)>; 3]) -> bool {
    &&& (b[1] >= 18 ==> blocks[0] == Some((be32(b[10], b[11], b[12], b[13]), be32(b[14], b[15], b[16], b[17]))))
    &&& (b[1] < 18 ==> blocks[0] is None)
    &&& (b[1] >= 26 ==> blocks[1] == Some((be32(b[18], b[19], b[20], b[21]), be32(b[22], b[23], b[24], b[25]))))
    &&& (b[1] < 26 ==> blocks[1] is None)
    &&& (b[1] >= 34 ==> blocks[2] == Some((be32(b[26], b[27], b[28], b[29]), be32(b[30], b[31], b[32], b[33]))))
    &&& (b[1] < 34 ==> blocks[2] is None)
}

/// True when `out` is the decoding of the option run `b`: one result
/// per option, ending at an end-of-options kind, at the end of the
/// run, or with the error that stopped decoding.
pub open spec fn spec_options_parse(
    b: Seq<u8>,
    out: Seq<Result<TcpOptionElement, TcpOptionReadError>>,
) -> bool
    decreases b.len(),
{
    if b.len() == 0 {
        out == Seq::<Result<TcpOptionElement, TcpOptionReadError>>::empty()
    } else {
        let kind = b[0];
        if kind == KIND_END {
            out == Seq::<Result<TcpOptionElement, TcpOptionReadError>>::empty()
        } else if kind == KIND_NOOP {
            &&& out.len() > 0
            &&& out[0] == Result::<TcpOptionElement, TcpOptionReadError>::Ok(
                TcpOptionElement::Noop,
            )
            &&& spec_options_parse(b.skip(1), out.skip(1))
        } else if kind == KIND_MSS {
            if b.len() < 2 {
                out == seq![
                    Result::<TcpOptionElement, TcpOptionReadError>::Err(
                        TcpOptionReadError::UnexpectedEndOfSlice(KIND_MSS),
                    ),
                ]
            } else if b[1] != 4 {
                out == seq![
                    Result::<TcpOptionElement, TcpOptionReadError>::Err(
                        TcpOptionReadError::UnexpectedSize { option_id: KIND_MSS, size: b[1] },
                    ),
                ]
            } else if b.len() < 4 {
                out == seq![
                    Result::<TcpOptionElement, TcpOptionReadError>::Err(
                        TcpOptionReadError::UnexpectedEndOfSlice(KIND_MSS),
                    ),
                ]
            } else {
                &&& out.len() > 0
                &&& out[0] == Result::<TcpOptionElement, TcpOptionReadError>::Ok(
                    TcpOptionElement::MaximumSegmentSize(be16(b[2], b[3])),
                )
                &&& spec_options_parse(b.skip(4), out.skip(1))
            }
        } else if kind == KIND_WINDOW_SCALE {
            if b.len() < 2 {
                out == seq![
                    Result::<TcpOptionElement, TcpOptionReadError>::Err(
                        TcpOptionReadError::UnexpectedEndOfSlice(KIND_WINDOW_SCALE),
                    ),
                ]
            } else if b[1] != 3 {
                out == seq![
                    Result::<TcpOptionElement, TcpOptionReadError>::Err(
                        TcpOptionReadError::UnexpectedSize {
                            option_id: KIND_WINDOW_SCALE,
                            size: b[1],
                        },
                    ),
                ]
            } else if b.len() < 3 {
                out == seq![
                    Result::<TcpOptionElement, TcpOptionReadError>::Err(
                        TcpOptionReadError::UnexpectedEndOfSlice(KIND_WINDOW_SCALE),
                    ),
                ]
            } else {
                &&& out.len() > 0
                &&& out[0] == Result::<TcpOptionElement, TcpOptionReadError>::Ok(
                    TcpOptionElement::WindowScale(b[2]),
                )
                &&& spec_options_parse(b.skip(3), out.skip(1))
            }
        } else if kind == KIND_SACK_PERMITTED {
            if b.len() < 2 {
                out == seq![
                    Result::<TcpOptionElement, TcpOptionReadError>::Err(
                        TcpOptionReadError::UnexpectedEndOfSlice(KIND_SACK_PERMITTED),
                    ),
                ]
            } else if b[1] != 2 {
                out == seq![
                    Result::<TcpOptionElement, TcpOptionReadError>::Err(
                        TcpOptionReadError::UnexpectedSize {
                            option_id: KIND_SACK_PERMITTED,
                            size: b[1],
                        },
                    ),
                ]
            } else {
                &&& out.len() > 0
                &&& out[0] == Result::<TcpOptionElement, TcpOptionReadError>::Ok(
                    TcpOptionElement::SelectiveAcknowledgementPermitted,
                )
                &&& spec_options_parse(b.skip(2), out.skip(1))
            }
        } else if kind == KIND_SACK {
            if b.len() < 2 {
                out == seq![
                    Result::<TcpOptionElement, TcpOptionReadError>::Err(
                        TcpOptionReadError::UnexpectedEndOfSlice(KIND_SACK),
                    ),
                ]
            } else if b[1] != 10 && b[1] != 18 && b[1] != 26 && b[1] != 34 {
                out == seq![
                    Result::<TcpOptionElement, TcpOptionReadError>::Err(
                        TcpOptionReadError::UnexpectedSize { option_id: KIND_SACK, size: b[1] },
                    ),
                ]
            } else if b.len() < b[1] {
                out == seq![
                    Result::<TcpOptionElement, TcpOptionReadError>::Err(
                        TcpOptionReadError::UnexpectedEndOfSlice(KIND_SACK),
                    ),
                ]
            } else {
                &&& out.len() > 0
                &&& (match out[0] {
                    Ok(TcpOptionElement::SelectiveAcknowledgement(first, blocks)) => {
                        &&& first == (
                            be32(b[2], b[3], b[4], b[5]),
                            be32(b[6], b[7], b[8], b[9]),
                        )
                        &&& spec_sack_blocks_match(b, blocks)
                    },
                    _ => false,
                })
                &&& spec_options_parse(b.skip(b[1] as int), out.skip(1))
            }
        } else if kind == KIND_TIMESTAMP {
            if b.len() < 2 {
                out == seq![
                    Result::<TcpOptionElement, TcpOptionReadError>::Err(
                        TcpOptionReadError::UnexpectedEndOfSlice(KIND_TIMESTAMP),
                    ),
                ]
            } else if b[1] != 10 {
                out == seq![
                    Result::<TcpOptionElement, TcpOptionReadError>::Err(
                        TcpOptionReadError::UnexpectedSize {
                            option_id: KIND_TIMESTAMP,
                            size: b[1],
                        },
                    ),
                ]
            } else if b.len() < 10 {
                out == seq![
                    Result::<TcpOptionElement, TcpOptionReadError>::Err(
                        TcpOptionReadError::UnexpectedEndOfSlice(KIND_TIMESTAMP),
                    ),
                ]
            } else {
                &&& out.len() > 0
                &&& out[0] == Result::<TcpOptionElement, TcpOptionReadError>::Ok(
                    TcpOptionElement::Timestamp(
                        be32(b[2], b[3], b[4], b[5]),
                        be32(b[6], b[7], b[8], b[9]),
                    ),
                )
                &&& spec_options_parse(b.skip(10), out.skip(1))
            }
        } else {
            if b.len() < 2 {
                out == seq![
                    Result::<TcpOptionElement, TcpOptionReadError>::Err(
                        TcpOptionReadError::UnexpectedEndOfSlice(kind),
                    ),
                ]
            } else if b[1] < 2 || b[1] > 40 {
                out == seq![
                    Result::<TcpOptionElement, TcpOptionReadError>::Err(
                        TcpOptionReadError::UnexpectedSize { option_id: kind, size: b[1] },
                    ),
                ]
            } else if b.len() < b[1] {
                out == seq![
                    Result::<TcpOptionElement, TcpOptionReadError>::Err(
                        TcpOptionReadError::UnexpectedEndOfSlice(kind),
                    ),
                ]
            } else {
                &&& out.len() > 0
                &&& (match out[0] {
                    Ok(TcpOptionElement::Unknown { kind: k2, length, data }) => {
                        &&& k2 == kind
                        &&& length == b[1]
                        &&& data@.take(b[1] - 2) == b.subrange(2, b[1] as int)
                        &&& (forall|i: int| b[1] - 2 <= i < 38 ==> data@[i] == 0)
                    },
                    _ => false,
                })
                &&& spec_options_parse(b.skip(b[1] as int), out.skip(1))
            }
        }
    }
}

/// Decode a run of option bytes into one result per option.
pub fn parse_option_elements(b: &[u8]) -> (r: Vec<Result<TcpOptionElement, TcpOptionReadError>>)
    ensures
        spec_options_parse(b@, r@),
    decreases b@.len(),
{
    if b.len() == 0 {
        let r: Vec<Result<TcpOptionElement, TcpOptionReadError>> = Vec::new();
        assert(r@ =~= Seq::<Result<TcpOptionElement, TcpOptionReadError>>::empty());
        return r;
    }
    let kind = b[0];
    if kind == KIND_END {
        let r: Vec<Result<TcpOptionElement, TcpOptionReadError>> = Vec::new();
        assert(r@ =~= Seq::<Result<TcpOptionElement, TcpOptionReadError>>::empty());
        return r;
    }
    if kind == KIND_NOOP {
        let rest = slice_subrange(b, 1, b.len());
        assert(rest@ =~= b@.skip(1));
        let mut r = parse_option_elements(rest);
        let ghost pr = r@;
        r.insert(0, Ok(TcpOptionElement::Noop));
        assert(r@.skip(1) =~= pr);
        return r;
    }
    // every remaining kind carries a length byte
    if b.len() < 2 {
        let mut r: Vec<Result<TcpOptionElement, TcpOptionReadError>> = Vec::new();
        r.push(Err(TcpOptionReadError::UnexpectedEndOfSlice(kind)));
        assert(r@ =~= seq![
            Result::<TcpOptionElement, TcpOptionReadError>::Err(
                TcpOptionReadError::UnexpectedEndOfSlice(kind),
            ),
        ]);
        return r;
    }
    let length = b[1];
    if kind == KIND_MSS {
        if length != 4 {
            return one_err(TcpOptionReadError::UnexpectedSize { option_id: kind, size: length });
        }
        if b.len() < 4 {
            return one_err(TcpOptionReadError::UnexpectedEndOfSlice(kind));
        }
        let v = read_be16(b, 2);
        let rest = slice_subrange(b, 4, b.len());
        assert(rest@ =~= b@.skip(4));
        let mut r = parse_option_elements(rest);
        let ghost pr = r@;
        r.insert(0, Ok(TcpOptionElement::MaximumSegmentSize(v)));
        assert(r@.skip(1) =~= pr);
        return r;
    }
    if kind == KIND_WINDOW_SCALE {
        if length != 3 {
            return one_err(TcpOptionReadError::UnexpectedSize { option_id: kind, size: length });
        }
        if b.len() < 3 {
            return one_err(TcpOptionReadError::UnexpectedEndOfSlice(kind));
        }
        let v = b[2];
        let rest = slice_subrange(b, 3, b.len());
        assert(rest@ =~= b@.skip(3));
        let mut r = parse_option_elements(rest);
        let ghost pr = r@;
        r.insert(0, Ok(TcpOptionElement::WindowScale(v)));
        assert(r@.skip(1) =~= pr);
        return r;
    }
    if kind == KIND_SACK_PERMITTED {
        if length != 2 {
            return one_err(TcpOptionReadError::UnexpectedSize { option_id: kind, size: length });
        }
        let rest = slice_subrange(b, 2, b.len());
        assert(rest@ =~= b@.skip(2));
        let mut r = parse_option_elements(rest);
        let ghost pr = r@;
        r.insert(0, Ok(TcpOptionElement::SelectiveAcknowledgementPermitted));
        assert(r@.skip(1) =~= pr);
        return r;
    }
    if kind == KIND_SACK {
        if length != 10 && length != 18 && length != 26 && length != 34 {
            return one_err(TcpOptionReadError::UnexpectedSize { option_id: kind, size: length });
        }
        if b.len() < length as usize {
            return one_err(TcpOptionReadError::UnexpectedEndOfSlice(kind));
        }
        let first = (read_be32(b, 2), read_be32(b, 6));
        let mut blocks: [Option<(u32, u32)>; 3] = [None, None, None];
        if length >= 18 {
            blocks[0] = Some((read_be32(b, 10), read_be32(b, 14)));
        }
        if length >= 26 {
            blocks[1] = Some((read_be32(b, 18), read_be32(b, 22)));
        }
        if length >= 34 {
            blocks[2] = Some((read_be32(b, 26), read_be32(b, 30)));
        }
        let rest = slice_subrange(b, length as usize, b.len());
        assert(rest@ =~= b@.skip(b@[1] as int));
        let mut r = parse_option_elements(rest);
        let ghost pr = r@;
        r.insert(0, Ok(TcpOptionElement::SelectiveAcknowledgement(first, blocks)));
        assert(r@.skip(1) =~= pr);
        return r;
    }
    if kind == KIND_TIMESTAMP {
        if length != 10 {
            return one_err(TcpOptionReadError::UnexpectedSize { option_id: kind, size: length });
        }
        if b.len() < 10 {
            return one_err(TcpOptionReadError::UnexpectedEndOfSlice(kind));
        }
        let ts = (read_be32(b, 2), read_be32(b, 6));
        let rest = slice_subrange(b, 10, b.len());
        assert(rest@ =~= b@.skip(10));
        let mut r = parse_option_elements(rest);
        let ghost pr = r@;
        r.insert(0, Ok(TcpOptionElement::Timestamp(ts.0, ts.1)));
        assert(r@.skip(1) =~= pr);
        return r;
    }
    if length < 2 || length > 40 {
        return one_err(TcpOptionReadError::UnexpectedSize { option_id: kind, size: length });
    }
    if b.len() < length as usize {
        return one_err(TcpOptionReadError::UnexpectedEndOfSlice(kind));
    }
    let data: [u8; 38] = read_padded(b, 2, length as usize - 2);
    let rest = slice_subrange(b, length as usize, b.len());
    assert(rest@ =~= b@.skip(b@[1] as int));
    let mut r = parse_option_elements(rest);
    let ghost pr = r@;
    r.insert(0, Ok(TcpOptionElement::Unknown { kind, length, data }));
    assert(r@.skip(1) =~= pr);
    assert(data@.take(length - 2) == b@.subrange(2, length as int));
    return r;
}

/// A one-entry decoding that ends in the given error.
fn one_err(e: TcpOptionReadError) -> (r: Vec<Result<TcpOptionElement, TcpOptionReadError>>)
    ensures
        r@ == seq![Result::<TcpOptionElement, TcpOptionReadError>::Err(e)],
{
    let mut r: Vec<Result<TcpOptionElement, TcpOptionReadError>> = Vec::new();
    r.push(Err(e));
    assert(r@ =~= seq![Result::<TcpOptionElement, TcpOptionReadError>::Err(e)]);
    r
}

/// Append the bytes of one option.
fn write_option_element(buf: &mut Vec<u8>, e: &TcpOptionElement)
    requires
        e.wf(),
    ensures
        final(buf)@ == old(buf)@ + e.spec_bytes(),
{
    match e {
        TcpOptionElement::Noop => {
            buf.push(KIND_NOOP);
        },
        TcpOptionElement::MaximumSegmentSize(v) => {
            buf.push(KIND_MSS);
            buf.push(4);
            write_be16(buf, *v);
        },
        TcpOptionElement::WindowScale(v) => {
            buf.push(KIND_WINDOW_SCALE);
            buf.push(3);
            buf.push(*v);
        },
        TcpOptionElement::SelectiveAcknowledgementPermitted => {
            buf.push(KIND_SACK_PERMITTED);
            buf.push(2);
        },
        TcpOptionElement::SelectiveAcknowledgement(first, blocks) => {
            let mut n: u8 = 0;
            if blocks[0].is_some() {
                n = n + 1;
            }
            if blocks[1].is_some() {
                n = n + 1;
            }
            if blocks[2].is_some() {
                n = n + 1;
            }
            buf.push(KIND_SACK);
            buf.push(10 + 8 * n);
            write_be32(buf, first.0);
            write_be32(buf, first.1);
            match blocks[0] {
                Some(p) => {
                    write_be32(buf, p.0);
                    write_be32(buf, p.1);
                },
                None => {},
            }
            match blocks[1] {
                Some(p) => {
                    write_be32(buf, p.0);
                    write_be32(buf, p.1);
                },
                None => {},
            }
            match blocks[2] {
                Some(p) => {
                    write_be32(buf, p.0);
                    write_be32(buf, p.1);
                },
                None => {},
            }
        },
        TcpOptionElement::Timestamp(a, b) => {
            buf.push(KIND_TIMESTAMP);
            buf.push(10);
            write_be32(buf, *a);
            write_be32(buf, *b);
        },
        TcpOptionElement::Unknown { kind, length, data } => {
            buf.push(*kind);
            buf.push(*length);
            let body = slice_subrange(data.as_slice(), 0, *length as usize - 2);
            assert(body@ =~= data@.take(*length - 2));
            crate::bytes::push_slice(buf, body);
        },
    }
    assert(buf@ =~= old(buf)@ + e.spec_bytes());
}

impl TcpHeader {
    /// Replace the options with the serialization of the given
    /// elements, padded with zero bytes to a multiple of 4. Fails
    /// when the serialization is longer than 40 bytes; the header is
    /// unchanged then.
    pub fn set_options(&mut self, elements: &[TcpOptionElement]) -> (r: Result<(), ValueError>)
        requires
            forall|i: int| 0 <= i < elements@.len() ==> elements@[i].wf(),
        ensures
            match r {
                Ok(()) => {
                    let raw = spec_options_serialize(elements@);
                    &&& raw.len() <= 40
                    &&& *final(self) == TcpHeader {
                        options_buf: final(self).options_buf,
                        options_len: final(self).options_len,
                        ..*old(self)
                    }
                    &&& final(self).spec_options() == raw + spec_pad4(raw.len() as int)
                    &&& final(self).wf()
                },
                Err(e) => spec_options_serialize(elements@).len() > 40 && e
                    == ValueError::TcpOptionsLengthBad(
                    spec_options_serialize(elements@).len() as usize,
                ) && *final(self) == *old(self),
            },
    {
        let mut raw: Vec<u8> = Vec::new();
        let mut i: usize = 0;
        while i < elements.len()
            invariant
                i <= elements@.len(),
                forall|j: int| 0 <= j < elements@.len() ==> elements@[j].wf(),
                raw@ == spec_options_serialize(elements@.take(i as int)),
            decreases elements@.len() - i,
        {
            write_option_element(&mut raw, &elements[i]);
            proof {
                assert(elements@.take(i + 1).drop_last() =~= elements@.take(i as int));
                assert(elements@.take(i + 1).last() == elements@[i as int]);
            }
            i = i + 1;
        }
        assert(elements@.take(elements@.len() as int) =~= elements@);
        if raw.len() > 40 {
            return Err(ValueError::TcpOptionsLengthBad(raw.len()));
        }
        let ghost raw_view = raw@;
        if raw.len() % 4 != 0 {
            raw.push(0);
        }
        if raw.len() % 4 != 0 {
            raw.push(0);
        }
        if raw.len() % 4 != 0 {
            raw.push(0);
        }
        assert(raw@.len() % 4 == 0 && raw@.len() <= 40);
        self.options_buf = read_padded(raw.as_slice(), 0, raw.len());
        self.options_len = raw.len() as u8;
        assert(self.spec_options() =~= raw@);
        assert(raw@ =~= raw_view + spec_pad4(raw_view.len() as int));
        Ok(())
    }

    /// Decode the header's option bytes into one result per option.
    pub fn options_elements(&self) -> (r: Vec<Result<TcpOptionElement, TcpOptionReadError>>)
        requires
            self.options_len <= 40,
        ensures
            spec_options_parse(self.spec_options(), r@),
    {
        parse_option_elements(self.options())
    }
}

} // verus!
