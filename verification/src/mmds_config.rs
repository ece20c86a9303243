//! The MMDS configuration model: the pool of IPv4 address strings a
//! client submits, and its validation.

use vstd::prelude::*;
use vstd::string::StringExecFns;
use crate::ipv4::{addr_octets, ipv4_spec, is_valid_ipv4, parse_ipv4, AddrParseError, Ipv4Addr};

verus! {

/// The configuration of the MMDS service: the pool of endpoint
/// addresses, kept as the strings the client sent, in order.
///
/// The pool is not validated at construction; [`MmdsConfig::ipv4_addr_pool`]
/// checks it on demand.
#[derive(Debug, PartialEq)]
pub struct MmdsConfig {
    /// Pool of MMDS endpoint addresses, dotted-decimal strings.
    pub ipv4_address_pool: Vec<String>,
}

/// Errors of the MMDS configuration model.
#[derive(Debug, Clone, Copy, PartialEq, Eq, Structural)]
pub enum Error {
    /// Changing the MMDS configuration is refused once the VM has
    /// booted. The guard itself is the lifecycle manager's; this model
    /// only supplies the vocabulary.
    SetMmdsConfigurationNotAllowedPostBoot,
    /// An entry of the pool is not a dotted-decimal IPv4 address.
    IPv4ParseError(AddrParseError),
}

/// Every entry of the pool is dotted-decimal IPv4 syntax.
pub open spec fn pool_all_valid(pool: Seq<Seq<char>>) -> bool {
    forall|m: int| 0 <= m < pool.len() ==> is_valid_ipv4(#[trigger] pool[m])
}

impl MmdsConfig {
    /// The pool as a sequence of character sequences.
    pub open spec fn pool_model(&self) -> Seq<Seq<char>> {
        self.ipv4_address_pool.deep_view()
    }

    /// Parse every pool entry as an IPv4 address, in order.
    ///
    /// Succeeds exactly when every entry is valid, returning the parsed
    /// addresses in the entries' order; duplicates are kept. Fails on
    /// the first invalid entry with [`Error::IPv4ParseError`].
    pub fn ipv4_addr_pool(&self) -> (r: Result<Vec<Ipv4Addr>, Error>)
        ensures
            r is Ok <==> pool_all_valid(self.pool_model()),
            r matches Ok(v) ==> v@.len() == self.pool_model().len() && (forall|m: int|
                0 <= m < v@.len() ==> Some(addr_octets(#[trigger] v@[m])) == ipv4_spec(
                    self.pool_model()[m],
                )),
            r matches Err(e) ==> e matches Error::IPv4ParseError(_),
    {
        let mut out: Vec<Ipv4Addr> = Vec::new();
        let n = self.ipv4_address_pool.len();
        let mut idx: usize = 0;
        while idx < n
            invariant
                n == self.ipv4_address_pool.len(),
                0 <= idx <= n,
                out@.len() == idx,
                forall|m: int| 0 <= m < idx ==> is_valid_ipv4(#[trigger] self.pool_model()[m]),
                forall|m: int|
                    0 <= m < idx ==> Some(addr_octets(#[trigger] out@[m])) == ipv4_spec(
                        self.pool_model()[m],
                    ),
            decreases n - idx,
        {
            let entry: &String = &self.ipv4_address_pool[idx];
            assert(entry@ == self.pool_model()[idx as int]);
            match parse_ipv4(entry.as_str()) {
                Ok(addr) => {
                    out.push(addr);
                },
                Err(e) => {
                    assert(!is_valid_ipv4(self.pool_model()[idx as int]));
                    return Err(Error::IPv4ParseError(e));
                },
            }
            idx = idx + 1;
        }
        Ok(out)
    }
}

impl Error {
    /// A descriptive message for the error, as the HTTP layer would
    /// show it.
    pub fn message(&self) -> (r: String)
        ensures
            self matches Error::SetMmdsConfigurationNotAllowedPostBoot ==> r@
                == "Setting MMDS configuration is not allowed after boot."@,
            self matches Error::IPv4ParseError(_) ==> r@ == "invalid IP address syntax"@,
    {
        match self {
            Error::SetMmdsConfigurationNotAllowedPostBoot => String::from_str(
                "Setting MMDS configuration is not allowed after boot.",
            ),
            Error::IPv4ParseError(_) => String::from_str("invalid IP address syntax"),
        }
    }
}

} // verus!
