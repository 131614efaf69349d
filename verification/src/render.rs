//! Textual rendering of the data-model values: the fixed spellings of the
//! network type, media kinds and protocols, and decimal rendering of
//! numeric format lists.  The decimal renderer is proved to be the inverse
//! of the decimal parser.

use vstd::prelude::*;
use vstd::string::StringSliceAdditionalSpecFns;

use crate::num::{all_digits, dec_val};
use crate::types::{SdpFormatList, SdpMediaValue, SdpNetType, SdpProtocolValue};

verus! {

/// The decimal digits of `n`, most significant first, without leading
/// zeros (zero itself renders as the single digit `0`).
pub open spec fn spec_render_u64(n: nat) -> Seq<u8>
    decreases n,
{
    if n < 10 {
        seq![(48 + n) as u8]
    } else {
        spec_render_u64(n / 10).push((48 + n % 10) as u8)
    }
}

/// Rendering an integer and parsing the digits back returns the integer:
/// the decimal renderer is the inverse of the decimal parser.
pub proof fn lemma_render_u64_parses_back(n: nat)
    ensures
        all_digits(spec_render_u64(n)),
        dec_val(spec_render_u64(n)) == n,
    decreases n,
{
    if n < 10 {
        assert(dec_val(spec_render_u64(n)) == dec_val(Seq::<u8>::empty()) * 10 + (48 + n)
            - 48) by {
            assert(spec_render_u64(n).drop_last() =~= Seq::<u8>::empty());
        }
    } else {
        lemma_render_u64_parses_back(n / 10);
        assert(spec_render_u64(n).drop_last() =~= spec_render_u64(n / 10));
    }
}

/// Renders an unsigned integer in decimal.
pub fn render_u64(n: u64) -> (r: Vec<u8>)
    ensures
        r@ == spec_render_u64(n as nat),
    decreases n,
{
    if n < 10 {
        let mut v: Vec<u8> = Vec::new();
        v.push(48 + (n as u8));
        proof {
            assert(v@ =~= spec_render_u64(n as nat));
        }
        v
    } else {
        let mut v = render_u64(n / 10);
        v.push(48 + ((n % 10) as u8));
        proof {
            assert(v@ =~= spec_render_u64(n as nat));
        }
        v
    }
}

/// The rendering of a numeric format list: the decimal numbers in order,
/// separated by single spaces.
pub open spec fn spec_join_numbers(l: Seq<u32>) -> Seq<u8>
    decreases l.len(),
{
    if l.len() == 0 {
        Seq::empty()
    } else if l.len() == 1 {
        spec_render_u64(l[0] as nat)
    } else {
        spec_join_numbers(l.drop_last()) + seq![32u8] + spec_render_u64(l.last() as nat)
    }
}

/// The rendering of an opaque format list: the format tokens in order,
/// separated by single spaces.
pub open spec fn spec_join_tokens(l: Seq<Seq<u8>>) -> Seq<u8>
    decreases l.len(),
{
    if l.len() == 0 {
        Seq::empty()
    } else if l.len() == 1 {
        l[0]
    } else {
        spec_join_tokens(l.drop_last()) + seq![32u8] + l.last()
    }
}

impl SdpNetType {
    /// The fixed spelling of the network type.
    pub fn to_text(&self) -> (r: Vec<u8>)
        ensures
            r@ == "IN".spec_bytes(),
    {
        vstd::slice::slice_to_vec("IN".as_bytes())
    }
}

impl SdpMediaValue {
    /// The spelling of this media kind.
    pub open spec fn spec_text(self) -> Seq<u8> {
        match self {
            SdpMediaValue::SdpMediaAudio => "Audio".spec_bytes(),
            SdpMediaValue::SdpMediaVideo => "Video".spec_bytes(),
            SdpMediaValue::SdpMediaApplication => "Application".spec_bytes(),
        }
    }

    /// Renders this media kind.
    pub fn to_text(&self) -> (r: Vec<u8>)
        ensures
            r@ == self.spec_text(),
    {
        match self {
            SdpMediaValue::SdpMediaAudio => vstd::slice::slice_to_vec("Audio".as_bytes()),
            SdpMediaValue::SdpMediaVideo => vstd::slice::slice_to_vec("Video".as_bytes()),
            SdpMediaValue::SdpMediaApplication => vstd::slice::slice_to_vec(
                "Application".as_bytes(),
            ),
        }
    }
}

impl SdpProtocolValue {
    /// The spelling of this protocol value.
    pub open spec fn spec_text(self) -> Seq<u8> {
        match self {
            SdpProtocolValue::SdpProtoUdpTlsRtpSavpf => "Udp/Tls/Rtp/Savpf".spec_bytes(),
            SdpProtocolValue::SdpProtoTcpTlsRtpSavpf => "Tcp/Tls/Rtp/Savpf".spec_bytes(),
            SdpProtocolValue::SdpProtoDtlsSctp => "Dtls/Sctp".spec_bytes(),
            SdpProtocolValue::SdpProtoUdpDtlsSctp => "Udp/Dtls/Sctp".spec_bytes(),
            SdpProtocolValue::SdpProtoTcpDtlsSctp => "Tcp/Dtls/Sctp".spec_bytes(),
        }
    }

    /// Renders this protocol value.
    pub fn to_text(&self) -> (r: Vec<u8>)
        ensures
            r@ == self.spec_text(),
    {
        match self {
            SdpProtocolValue::SdpProtoUdpTlsRtpSavpf => vstd::slice::slice_to_vec(
                "Udp/Tls/Rtp/Savpf".as_bytes(),
            ),
            SdpProtocolValue::SdpProtoTcpTlsRtpSavpf => vstd::slice::slice_to_vec(
                "Tcp/Tls/Rtp/Savpf".as_bytes(),
            ),
            SdpProtocolValue::SdpProtoDtlsSctp => vstd::slice::slice_to_vec(
                "Dtls/Sctp".as_bytes(),
            ),
            SdpProtocolValue::SdpProtoUdpDtlsSctp => vstd::slice::slice_to_vec(
                "Udp/Dtls/Sctp".as_bytes(),
            ),
            SdpProtocolValue::SdpProtoTcpDtlsSctp => vstd::slice::slice_to_vec(
                "Tcp/Dtls/Sctp".as_bytes(),
            ),
        }
    }
}

impl SdpFormatList {
    /// The rendering of this format list: its entries in order, separated
    /// by single spaces.
    pub open spec fn spec_text(self) -> Seq<u8> {
        match self {
            SdpFormatList::SdpFormatIntegers { list } => spec_join_numbers(list@),
            SdpFormatList::SdpFormatStrings { list } => spec_join_tokens(list.deep_view()),
        }
    }

    /// Renders this format list.
    pub fn to_text(&self) -> (r: Vec<u8>)
        ensures
            r@ == self.spec_text(),
    {
        match self {
            SdpFormatList::SdpFormatIntegers { list } => {
                let mut out: Vec<u8> = Vec::new();
                let mut i: usize = 0;
                while i < list.len()
                    invariant
                        0 <= i <= list@.len(),
                        out@ == spec_join_numbers(list@.take(i as int)),
                    decreases list@.len() - i,
                {
                    if i > 0 {
                        out.push(32);
                    }
                    let mut digits = render_u64(list[i] as u64);
                    out.append(&mut digits);
                    proof {
                        assert(list@.take(i as int + 1).drop_last() =~= list@.take(i as int));
                        assert(list@.take(i as int + 1).last() == list@[i as int]);
                        assert(out@ =~= spec_join_numbers(list@.take(i as int + 1)));
                    }
                    i += 1;
                }
                proof {
                    assert(list@.take(list@.len() as int) =~= list@);
                }
                out
            },
            SdpFormatList::SdpFormatStrings { list } => {
                let ghost l = list.deep_view();
                let mut out: Vec<u8> = Vec::new();
                let mut i: usize = 0;
                while i < list.len()
                    invariant
                        0 <= i <= list@.len(),
                        l == list.deep_view(),
                        out@ == spec_join_tokens(l.take(i as int)),
                    decreases list@.len() - i,
                {
                    if i > 0 {
                        out.push(32);
                    }
                    let mut tok = vstd::slice::slice_to_vec(list[i].as_slice());
                    proof {
                        assert(tok@ =~= l[i as int]);
                    }
                    out.append(&mut tok);
                    proof {
                        assert(l.take(i as int + 1).drop_last() =~= l.take(i as int));
                        assert(l.take(i as int + 1).last() == l[i as int]);
                        assert(out@ =~= spec_join_tokens(l.take(i as int + 1)));
                    }
                    i += 1;
                }
                proof {
                    assert(l.take(l.len() as int) =~= l);
                }
                out
            },
        }
    }
}

} // verus!
