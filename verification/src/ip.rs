//! The internet layer as one value: either an IPv4 header with its
//! extensions or an IPv6 header with its extension chain.

use vstd::prelude::*;

use crate::err::ReadError;
use crate::ip6ext::Ipv6Extensions;
use crate::ip_auth::IpAuthenticationHeader;
use crate::ip_number;
use crate::ipv4::Ipv4Header;
use crate::ipv6::Ipv6Header;

verus! {

/// The extension headers an IPv4 packet may carry: only the
/// authentication header is representable.
#[derive(Clone, Copy, Debug, PartialEq, Eq)]
pub struct Ipv4Extensions {
    pub auth: Option<IpAuthenticationHeader>,
}

impl Ipv4Extensions {
    /// The authentication header, when present, well formed.
    pub open spec fn wf(self) -> bool {
        match self.auth {
            Some(a) => a.wf(),
            None => true,
        }
    }

    /// True when no extension header is present.
    pub open spec fn spec_is_empty(self) -> bool {
        self.auth is None
    }

    /// Wire encoding of the extensions.
    pub open spec fn spec_bytes(self) -> Seq<u8> {
        match self.auth {
            Some(a) => a.spec_bytes(),
            None => Seq::<u8>::empty(),
        }
    }

    /// Number of bytes the extensions take on the wire.
    pub open spec fn spec_header_len(self) -> int {
        match self.auth {
            Some(a) => a.spec_header_len(),
            None => 0,
        }
    }

    /// The extensions with the next-header chain set: the
    /// authentication header points at `last`.
    pub open spec fn spec_chained(self, last: u8) -> Ipv4Extensions {
        match self.auth {
            Some(a) => Ipv4Extensions { auth: Some(IpAuthenticationHeader { next_header: last, ..a }) },
            None => self,
        }
    }

    /// The protocol value the IPv4 header must carry: the
    /// authentication header's number when present, else `last`.
    pub open spec fn spec_first_header(self, last: u8) -> u8 {
        match self.auth {
            Some(_) => ip_number::AUTH,
            None => last,
        }
    }

    /// True when no extension header is present.
    pub fn is_empty(&self) -> (r: bool)
        ensures
            r == self.spec_is_empty(),
    {
        self.auth.is_none()
    }

    /// Number of bytes the extensions take on the wire.
    pub fn header_len(&self) -> (r: usize)
        requires
            self.wf(),
        ensures
            r == self.spec_header_len(),
            r == self.spec_bytes().len(),
            r <= 12 + 1016,
    {
        match &self.auth {
            Some(a) => a.header_len(),
            None => 0,
        }
    }

    /// Chain the next-header fields: the authentication header gets
    /// `last`; the value returned is what the IPv4 protocol field
    /// must carry.
    pub fn set_next_headers(&mut self, last: u8) -> (r: u8)
        ensures
            *final(self) == old(self).spec_chained(last),
            r == old(self).spec_first_header(last),
    {
        match &mut self.auth {
            Some(a) => {
                a.next_header = last;
                ip_number::AUTH
            },
            None => last,
        }
    }

    /// Append the wire encoding to `buf`.
    pub fn write(&self, buf: &mut Vec<u8>)
        requires
            self.wf(),
        ensures
            final(buf)@ == old(buf)@ + self.spec_bytes(),
    {
        match &self.auth {
            Some(a) => a.write(buf),
            None => {
                assert(buf@ =~= old(buf)@ + self.spec_bytes());
            },
        }
    }

    /// Read the extensions that follow an IPv4 header whose protocol
    /// field holds `protocol`: an authentication header when the
    /// protocol is 51, nothing otherwise. Returns the extensions, the
    /// protocol after them, and the bytes after them.
    pub fn from_slice<'a>(protocol: u8, slice: &'a [u8]) -> (r: Result<
        (Ipv4Extensions, u8, &'a [u8]),
        ReadError,
    >)
        ensures
            r is Ok <==> protocol != ip_number::AUTH || (slice@.len() >= 12 && slice@[1] >= 1
                && slice@.len() >= (slice@[1] + 2) * 4),
            match r {
                Ok((e, next, rest)) => {
                    &&& e.wf()
                    &&& (protocol != ip_number::AUTH ==> e.spec_is_empty() && next == protocol
                        && rest@ == slice@)
                    &&& (protocol == ip_number::AUTH ==> match e.auth {
                        Some(a) => a.spec_matches(slice@) && next == a.next_header && rest@
                            == slice@.skip((slice@[1] + 2) * 4),
                        None => false,
                    })
                },
                Err(e) => protocol == ip_number::AUTH && match e {
                    ReadError::UnexpectedEndOfSlice(n) => slice@.len() < n && (n == 12 || (
                    slice@.len() >= 12 && slice@[1] >= 1 && n == (slice@[1] + 2) * 4)),
                    ReadError::IpAuthenticationHeaderTooSmall(l) => slice@.len() >= 12 && l
                        == slice@[1] && l < 1,
                    _ => false,
                },
            },
    {
        if protocol == ip_number::AUTH {
            let (a, rest) = match IpAuthenticationHeader::from_slice(slice) {
                Ok(v) => v,
                Err(e) => {
                    return Err(e);
                },
            };
            let next = a.next_header;
            Ok((Ipv4Extensions { auth: Some(a) }, next, rest))
        } else {
            Ok((Ipv4Extensions { auth: None }, protocol, slice))
        }
    }
}

impl Default for Ipv4Extensions {
    /// No extension headers.
    fn default() -> (r: Ipv4Extensions)
        ensures
            r.spec_is_empty(),
    {
        Ipv4Extensions { auth: None }
    }
}

impl Default for Ipv6Extensions {
    /// No extension headers.
    fn default() -> (r: Ipv6Extensions)
        ensures
            r == Ipv6Extensions::spec_empty(),
    {
        Ipv6Extensions {
            hop_by_hop_options: None,
            destination_options: None,
            routing: None,
            fragment: None,
            auth: None,
        }
    }
}

/// An internet layer header: IPv4 or IPv6, each with its extensions.
#[derive(Clone, Copy, Debug, PartialEq, Eq)]
pub enum IpHeader {
    Version4(Ipv4Header, Ipv4Extensions),
    Version6(Ipv6Header, Ipv6Extensions),
}

impl IpHeader {
    /// Both parts well formed.
    pub open spec fn wf(self) -> bool {
        match self {
            IpHeader::Version4(h, e) => h.wf() && e.wf(),
            IpHeader::Version6(h, e) => h.wf() && e.wf(),
        }
    }
}

} // verus!
