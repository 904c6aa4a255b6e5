//! Spotting networks that are too large to hold in memory.

use cidr_utils::cidr::IpInet;
use std::str::FromStr;
use vstd::arithmetic::power2::pow2;
use vstd::prelude::*;

use crate::notice::Notice;
use crate::notice::NoticeText;
use crate::options::Opts;

verus! {

/// From this many addresses on, a network counts as large.
pub const LARGE_CIDR_THRESHOLD: u128 = 1_000_000;

/// A host within a network, reduced to the family and the length of the
/// network prefix in bits.
#[derive(Clone, Copy, Debug, PartialEq, Eq, Structural)]
pub enum Inet {
    V4 { network_length: u8 },
    V6 { network_length: u8 },
}

impl Inet {
    /// A prefix is at most as long as an address of its family.
    pub open spec fn well_formed(self) -> bool {
        match self {
            Inet::V4 { network_length } => network_length <= 32,
            Inet::V6 { network_length } => network_length <= 128,
        }
    }

    /// The number of bits that the prefix leaves to the hosts.
    pub open spec fn host_bits(self) -> nat {
        match self {
            Inet::V4 { network_length } => if network_length <= 32 {
                (32 - network_length) as nat
            } else {
                0
            },
            Inet::V6 { network_length } => if network_length <= 128 {
                (128 - network_length) as nat
            } else {
                0
            },
        }
    }

    /// The number of addresses in the network.
    pub open spec fn address_count(self) -> nat {
        pow2(self.host_bits())
    }
}

/// What `IpInet::from_str` of the `cidr` crate makes of a text: the family and
/// the prefix length of the network, or nothing where it reports an error.
pub uninterp spec fn parsed_inet(text: Seq<char>) -> Option<Inet>;

/// Calls `cidr::IpInet::from_str`, and `network_length` on what it returns.
///
/// Claimed of it: the outcome depends on the text alone, an error is the only
/// other outcome, and a prefix is never longer than an address of its family.
#[verifier::external_body]
fn parse_inet(text: &str) -> (inet: Option<Inet>)
    ensures
        inet == parsed_inet(text@),
        inet matches Some(net) ==> net.well_formed(),
{
    match IpInet::from_str(text) {
        Ok(IpInet::V4(net)) => Some(Inet::V4 { network_length: net.network_length() }),
        Ok(IpInet::V6(net)) => Some(Inet::V6 { network_length: net.network_length() }),
        Err(_) => None,
    }
}

/// Shifting one by `bits` gives that power of two.
proof fn lemma_one_shifted(bits: u32)
    requires
        bits < 128,
    ensures
        (1u128 << bits) == pow2(bits as nat),
    decreases bits,
{
    if bits == 0 {
        assert((1u128 << 0u32) == 1) by (bit_vector);
        vstd::arithmetic::power2::lemma2_to64();
    } else {
        let fewer = (bits - 1) as u32;
        lemma_one_shifted(fewer);
        assert((1u128 << bits) == 2 * (1u128 << fewer)) by (bit_vector)
            requires
                0 < bits < 128,
                fewer == bits - 1,
        ;
        vstd::arithmetic::power2::lemma_pow2_unfold(bits as nat);
    }
}

/// The whole of the version 6 address space is larger than any threshold.
proof fn lemma_full_space()
    ensures
        pow2(128) > u128::MAX,
{
    lemma_one_shifted(127);
    assert((1u128 << 127u32) == 0x8000_0000_0000_0000_0000_0000_0000_0000u128) by (bit_vector);
    vstd::arithmetic::power2::lemma_pow2_unfold(128);
}

/// Whether the network holds at least `threshold` addresses.
pub fn cidr_size_at_least(net: &Inet, threshold: u128) -> (large: bool)
    ensures
        large == (net.address_count() >= threshold),
{
    match *net {
        Inet::V4 { network_length } => {
            let host_bits: u32 = 32u32.saturating_sub(network_length as u32);
            proof {
                lemma_one_shifted(host_bits);
            }
            (1u128 << host_bits) >= threshold
        },
        Inet::V6 { network_length } => {
            let host_bits: u32 = 128u32.saturating_sub(network_length as u32);
            if host_bits >= 128 {
                proof {
                    lemma_full_space();
                }
                return true;
            }
            proof {
                lemma_one_shifted(host_bits);
            }
            (1u128 << host_bits) >= threshold
        },
    }
}

/// Whether a target is a network of at least `LARGE_CIDR_THRESHOLD` addresses.
pub open spec fn is_large(net: Option<Inet>) -> bool {
    net matches Some(inet) && inet.address_count() >= LARGE_CIDR_THRESHOLD
}

/// Networks with a prefix of at most 12 bits in version 4, and of at most 108
/// bits in version 6, are large, and no others.
pub proof fn lemma_large_prefixes(net: Inet)
    ensures
        is_large(Some(net)) <==> match net {
            Inet::V4 { network_length } => network_length <= 12,
            Inet::V6 { network_length } => network_length <= 108,
        },
{
    vstd::arithmetic::power2::lemma2_to64();
    if net.host_bits() < 19 {
        vstd::arithmetic::power2::lemma_pow2_strictly_increases(net.host_bits(), 19);
    }
    if net.host_bits() > 20 {
        vstd::arithmetic::power2::lemma_pow2_strictly_increases(20, net.host_bits());
    }
}

/// Whether the target at `index` is large and none before it is.
pub open spec fn is_first_large(nets: Seq<Option<Inet>>, index: int) -> bool {
    &&& 0 <= index < nets.len()
    &&& is_large(nets[index])
    &&& forall|earlier: int| 0 <= earlier < index ==> !is_large(#[trigger] nets[earlier])
}

/// Whether no target is large.
pub open spec fn none_large(nets: Seq<Option<Inet>>) -> bool {
    forall|i: int| 0 <= i < nets.len() ==> !is_large(#[trigger] nets[i])
}

/// The networks that a list of targets names.
pub open spec fn parsed_inets(targets: Seq<String>) -> Seq<Option<Inet>> {
    Seq::new(targets.len(), |i: int| parsed_inet(targets[i]@))
}

/// The text of the warning about a large network.
pub open spec fn large_cidr_text(target: Seq<char>) -> Seq<char> {
    "Large CIDR detected ("@ + target
        + "). Consider using --stream to reduce memory usage on low-memory systems."@
}

/// The position of the first large network in a list of targets.
pub fn first_large_cidr(nets: &Vec<Option<Inet>>) -> (first: Option<usize>)
    ensures
        match first {
            Some(index) => is_first_large(nets@, index as int),
            None => forall|i: int| 0 <= i < nets@.len() ==> !is_large(#[trigger] nets@[i]),
        },
        first is None ==> none_large(nets@),
{
    let mut i: usize = 0;
    while i < nets.len()
        invariant
            i <= nets.len(),
            forall|earlier: int| 0 <= earlier < i ==> !is_large(#[trigger] nets@[earlier]),
        decreases nets.len() - i,
    {
        if let Some(net) = &nets[i] {
            if cidr_size_at_least(net, LARGE_CIDR_THRESHOLD) {
                return Some(i);
            }
        }
        i += 1;
    }
    None
}

/// The warning about the first target that is a large network, if there is one.
///
/// Targets that are no networks are passed over.
pub fn warn_large_cidrs(opts: &Opts) -> (notice: Option<Notice>)
    ensures
        match notice {
            Some(warning) => exists|i: int| #[trigger]
                is_first_large(parsed_inets(opts.addresses@), i) && warning@
                    == NoticeText::Warning(large_cidr_text(opts.addresses@[i]@)),
            None => forall|i: int|
                0 <= i < opts.addresses@.len() ==> !is_large(
                    #[trigger] parsed_inets(opts.addresses@)[i],
                ),
        },
{
    let mut nets: Vec<Option<Inet>> = Vec::new();
    let mut i: usize = 0;
    while i < opts.addresses.len()
        invariant
            i <= opts.addresses.len(),
            nets@ == parsed_inets(opts.addresses@).take(i as int),
        decreases opts.addresses.len() - i,
    {
        nets.push(parse_inet(opts.addresses[i].as_str()));
        i += 1;
        assert(nets@ =~= parsed_inets(opts.addresses@).take(i as int));
    }
    assert(nets@ =~= parsed_inets(opts.addresses@));
    match first_large_cidr(&nets) {
        Some(index) => {
            let mut text = "Large CIDR detected (".to_owned();
            text.append(opts.addresses[index].as_str());
            text.append(
                "). Consider using --stream to reduce memory usage on low-memory systems.",
            );
            assert(is_first_large(parsed_inets(opts.addresses@), index as int));
            Some(Notice::Warning(text))
        },
        None => None,
    }
}

/// A network holds two to the power of the bits that its prefix leaves over, of
/// 32 bits in version 4 and 128 in version 6.
pub proof fn lemma_network_size(net: Inet, threshold: u128, large: bool)
    requires
        call_ensures(cidr_size_at_least, (&net, threshold), large),
    ensures
        match net {
            Inet::V4 { network_length } => network_length <= 32 ==> large == (pow2(
                (32 - network_length) as nat,
            ) >= threshold),
            Inet::V6 { network_length } => network_length <= 128 ==> large == (pow2(
                (128 - network_length) as nat,
            ) >= threshold),
        },
        match net {
            Inet::V4 { network_length } => network_length > 32 ==> large == (1 >= threshold),
            Inet::V6 { network_length } => network_length > 128 ==> large == (1 >= threshold),
        },
{
    vstd::arithmetic::power2::lemma2_to64();
}

/// A prefix that is one bit shorter leaves twice the addresses: a network holds
/// `half` addresses exactly if the next larger one holds twice as many.
pub proof fn lemma_shorter_prefix_doubles(
    length: u8,
    half: u128,
    double: u128,
    v4: bool,
    smaller: bool,
    larger: bool,
)
    requires
        0 < length <= if v4 {
            32int
        } else {
            128
        },
        double == 2 * half,
        call_ensures(
            cidr_size_at_least,
            (
                &(if v4 {
                    Inet::V4 { network_length: length }
                } else {
                    Inet::V6 { network_length: length }
                }),
                half,
            ),
            smaller,
        ),
        call_ensures(
            cidr_size_at_least,
            (
                &(if v4 {
                    Inet::V4 { network_length: (length - 1) as u8 }
                } else {
                    Inet::V6 { network_length: (length - 1) as u8 }
                }),
                double,
            ),
            larger,
        ),
    ensures
        smaller == larger,
{
    let bits: nat = if v4 {
        (32 - length) as nat
    } else {
        (128 - length) as nat
    };
    vstd::arithmetic::power2::lemma_pow2_unfold(bits + 1);
}

/// The first network that is found has a prefix of at most 12 bits in version 4
/// or 108 in version 6, and none before it has. If none is found, no target is
/// such a network.
pub proof fn lemma_first_large_is_first(nets: Vec<Option<Inet>>, first: Option<usize>)
    requires
        call_ensures(first_large_cidr, (&nets,), first),
    ensures
        first matches Some(index) ==> index < nets@.len() && match nets@[index as int] {
            Some(Inet::V4 { network_length }) => network_length <= 12,
            Some(Inet::V6 { network_length }) => network_length <= 108,
            None => false,
        },
        first matches Some(index) ==> forall|i: int|
            0 <= i < index ==> match (#[trigger] nets@[i]) {
                Some(Inet::V4 { network_length }) => network_length > 12,
                Some(Inet::V6 { network_length }) => network_length > 108,
                None => true,
            },
        first is None ==> forall|i: int|
            0 <= i < nets@.len() ==> match (#[trigger] nets@[i]) {
                Some(Inet::V4 { network_length }) => network_length > 12,
                Some(Inet::V6 { network_length }) => network_length > 108,
                None => true,
            },
{
    assert forall|i: int| 0 <= i < nets@.len() implies is_large(#[trigger] nets@[i])
        == match nets@[i] {
        Some(Inet::V4 { network_length }) => network_length <= 12,
        Some(Inet::V6 { network_length }) => network_length <= 108,
        None => false,
    } by {
        if let Some(net) = nets@[i] {
            lemma_large_prefixes(net);
        }
    }
    match first {
        Some(index) => {
            assert(is_first_large(nets@, index as int));
        },
        None => {
            assert(none_large(nets@));
        },
    }
}

/// The warning names the first target that is read as a network with a prefix of
/// at most 12 bits in version 4 or 108 in version 6. There is none exactly if no
/// target is.
pub proof fn lemma_warning_names_first_large(opts: Opts, notice: Option<Notice>)
    requires
        call_ensures(warn_large_cidrs, (&opts,), notice),
    ensures
        notice is None ==> forall|i: int|
            0 <= i < opts.addresses@.len() ==> match parsed_inet((#[trigger] opts.addresses@[i])@) {
                Some(Inet::V4 { network_length }) => network_length > 12,
                Some(Inet::V6 { network_length }) => network_length > 108,
                None => true,
            },
        notice is Some ==> exists|i: int|
            {
                &&& 0 <= i < opts.addresses@.len()
                &&& match parsed_inet((#[trigger] opts.addresses@[i])@) {
                    Some(Inet::V4 { network_length }) => network_length <= 12,
                    Some(Inet::V6 { network_length }) => network_length <= 108,
                    None => false,
                }
                &&& forall|j: int|
                    0 <= j < i ==> match parsed_inet((#[trigger] opts.addresses@[j])@) {
                        Some(Inet::V4 { network_length }) => network_length > 12,
                        Some(Inet::V6 { network_length }) => network_length > 108,
                        None => true,
                    }
                &&& notice matches Some(Notice::Warning(text)) && text@
                    == "Large CIDR detected ("@ + opts.addresses@[i]@
                    + "). Consider using --stream to reduce memory usage on low-memory systems."@
            },
{
    let nets = parsed_inets(opts.addresses@);
    assert forall|i: int| 0 <= i < opts.addresses@.len() implies is_large(
        parsed_inet((#[trigger] opts.addresses@[i])@),
    ) == match parsed_inet(opts.addresses@[i]@) {
        Some(Inet::V4 { network_length }) => network_length <= 12,
        Some(Inet::V6 { network_length }) => network_length <= 108,
        None => false,
    } && nets[i] == parsed_inet(opts.addresses@[i]@) by {
        if let Some(net) = parsed_inet(opts.addresses@[i]@) {
            lemma_large_prefixes(net);
        }
    }
    if let Some(warning) = notice {
        let i = choose|i: int| #[trigger]
            is_first_large(nets, i) && warning@ == NoticeText::Warning(
                large_cidr_text(opts.addresses@[i]@),
            );
        assert(0 <= i < opts.addresses@.len());
        assert forall|j: int| 0 <= j < i implies match parsed_inet(
            (#[trigger] opts.addresses@[j])@,
        ) {
            Some(Inet::V4 { network_length }) => network_length > 12,
            Some(Inet::V6 { network_length }) => network_length > 108,
            None => true,
        } by {
            assert(!is_large(nets[j]));
        }
        assert(is_large(parsed_inet(opts.addresses@[i]@)));
    } else {
        assert forall|i: int| 0 <= i < opts.addresses@.len() implies match parsed_inet(
            (#[trigger] opts.addresses@[i])@,
        ) {
            Some(Inet::V4 { network_length }) => network_length > 12,
            Some(Inet::V6 { network_length }) => network_length > 108,
            None => true,
        } by {
            assert(!is_large(nets[i]));
        }
    }
}

} // verus!
