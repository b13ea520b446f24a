//! The evaluation policy: deciding from the original IP and one probe outcome
//! whether a proxy is alive, and formatting the alive entry for output.

use vstd::prelude::*;
use vstd::string::StringExecFns;

use crate::probe::{OutcomeView, PayloadView, ProbeOutcome};
use crate::record::{ProxyRecord, RecordView};
use crate::text::{clean_org_name, clean_spec, keeps_char, lemma_clean_all_kept, str_eq};

verus! {

/// One proxy found alive, ready to be written out: the record's address,
/// port and country, with the organization chosen and cleaned by the
/// evaluation policy.
pub struct AliveProxyEntry {
    pub address: String,
    pub port: u16,
    pub country: String,
    pub organization: String,
}

/// The mathematical value of an `AliveProxyEntry`.
pub ghost struct EntryView {
    pub address: Seq<char>,
    pub port: u16,
    pub country: Seq<char>,
    pub organization: Seq<char>,
}

impl View for AliveProxyEntry {
    type V = EntryView;

    open spec fn view(&self) -> EntryView {
        EntryView {
            address: self.address@,
            port: self.port,
            country: self.country@,
            organization: self.organization@,
        }
    }
}

/// The invariant of an output entry: its organization holds only alphanumeric
/// and whitespace characters.
pub open spec fn entry_org_clean(e: EntryView) -> bool {
    forall|i: int| 0 <= i < e.organization.len() ==> keeps_char(#[trigger] e.organization[i])
}

/// The organization an alive entry carries: the cleaned organization reported
/// by the endpoint if present and non-empty, else the cleaned organization of
/// the input record.
pub open spec fn chosen_org(payload_org: Option<Seq<char>>, fallback_org: Seq<char>) -> Seq<char> {
    match payload_org {
        Some(o) => if o.len() > 0 {
            clean_spec(o)
        } else {
            clean_spec(fallback_org)
        },
        None => clean_spec(fallback_org),
    }
}

/// What evaluation decides. A failed probe is never alive. A successful probe
/// without a client IP is dead, and one whose client IP equals the original
/// IP is dead. Only a success with a distinct client IP is alive, and its
/// entry carries the record's address, port and country and the chosen
/// cleaned organization.
pub open spec fn evaluate_spec(
    original_ip: Seq<char>,
    outcome: OutcomeView,
    record: RecordView,
) -> Option<EntryView> {
    match outcome {
        OutcomeView::Failure(_) => None,
        OutcomeView::Success(p) => match p.client_ip {
            None => None,
            Some(ip) => if ip == original_ip {
                None
            } else {
                Some(
                    (EntryView {
                        address: record.address,
                        port: record.port,
                        country: record.country,
                        organization: chosen_org(p.as_organization, record.organization),
                    }),
                )
            },
        },
    }
}

/// The view of an optional entry.
pub open spec fn opt_entry_view(r: Option<AliveProxyEntry>) -> Option<EntryView> {
    match r {
        Some(e) => Some(e@),
        None => None,
    }
}

/// Decides whether a probe outcome makes the record's proxy alive: exactly
/// the decision of `evaluate_spec`, and the entry of an alive proxy satisfies
/// the organization invariant.
pub fn evaluate(original_ip: &str, outcome: &ProbeOutcome, record: &ProxyRecord) -> (r:
    Option<AliveProxyEntry>)
    ensures
        opt_entry_view(r) == evaluate_spec(original_ip@, outcome@, record@),
        r is Some ==> entry_org_clean(r.unwrap()@),
{
    match outcome {
        ProbeOutcome::Failure(_) => None,
        ProbeOutcome::Success(p) => {
            match &p.client_ip {
                None => None,
                Some(ip) => {
                    if str_eq(ip.as_str(), original_ip) {
                        None
                    } else {
                        let organization = match &p.as_organization {
                            Some(o) => {
                                if !o.as_str().is_empty() {
                                    proof {
                                        lemma_clean_all_kept(o@);
                                    }
                                    clean_org_name(o.as_str())
                                } else {
                                    proof {
                                        lemma_clean_all_kept(record.organization@);
                                    }
                                    clean_org_name(record.organization.as_str())
                                }
                            },
                            None => {
                                proof {
                                    lemma_clean_all_kept(record.organization@);
                                }
                                clean_org_name(record.organization.as_str())
                            },
                        };
                        Some(
                            AliveProxyEntry {
                                address: record.address.clone(),
                                port: record.port,
                                country: record.country.clone(),
                                organization,
                            },
                        )
                    }
                },
            }
        },
    }
}

/// Evaluation is deterministic: equal original IPs, outcomes and records
/// always yield the same decision and the same organization selection.
pub proof fn lemma_evaluate_deterministic(
    ip1: Seq<char>,
    out1: OutcomeView,
    rec1: RecordView,
    ip2: Seq<char>,
    out2: OutcomeView,
    rec2: RecordView,
)
    requires
        ip1 == ip2,
        out1 == out2,
        rec1 == rec2,
    ensures
        evaluate_spec(ip1, out1, rec1) == evaluate_spec(ip2, out2, rec2),
{
}

/// A successful probe whose observed client IP equals the original IP is
/// never alive, whatever organization fields the payload carries.
pub proof fn lemma_same_ip_never_alive(original_ip: Seq<char>, p: PayloadView, rec: RecordView)
    requires
        p.client_ip == Some(original_ip),
    ensures
        evaluate_spec(original_ip, OutcomeView::Success(p), rec) is None,
{
}

/// The decimal digit characters.
pub open spec fn digit_char(d: nat) -> char {
    if d == 0 {
        '0'
    } else if d == 1 {
        '1'
    } else if d == 2 {
        '2'
    } else if d == 3 {
        '3'
    } else if d == 4 {
        '4'
    } else if d == 5 {
        '5'
    } else if d == 6 {
        '6'
    } else if d == 7 {
        '7'
    } else if d == 8 {
        '8'
    } else {
        '9'
    }
}

/// The decimal notation of a number: its digits, most significant first, with
/// no sign and no leading zero.
pub open spec fn dec_str(n: nat) -> Seq<char>
    decreases n,
{
    if n < 10 {
        seq![digit_char(n)]
    } else {
        dec_str(n / 10).push(digit_char(n % 10))
    }
}

fn digit_to_char(d: u8) -> (c: char)
    requires
        d < 10,
    ensures
        c == digit_char(d as nat),
{
    if d == 0 {
        '0'
    } else if d == 1 {
        '1'
    } else if d == 2 {
        '2'
    } else if d == 3 {
        '3'
    } else if d == 4 {
        '4'
    } else if d == 5 {
        '5'
    } else if d == 6 {
        '6'
    } else if d == 7 {
        '7'
    } else if d == 8 {
        '8'
    } else {
        '9'
    }
}

/// Writes a port number in decimal.
pub fn u16_to_string(n: u16) -> (r: String)
    ensures
        r@ == dec_str(n as nat),
{
    let mut digits: Vec<char> = Vec::new();
    let mut m: u16 = n;
    let d0 = digit_to_char((m % 10) as u8);
    digits.push(d0);
    m = m / 10;
    proof {
        assert(digits@.reverse() =~= seq![d0]);
        if n < 10 {
            assert(dec_str(n as nat) =~= seq![digit_char(n as nat)]);
            assert(dec_str(n as nat) =~= digits@.reverse());
        } else {
            assert(dec_str(n as nat) == dec_str((n / 10) as nat).push(digit_char((n % 10) as nat)));
            assert(dec_str(n as nat) =~= dec_str(m as nat) + digits@.reverse());
        }
    }
    while m > 0
        invariant
            m > 0 ==> dec_str(n as nat) == dec_str(m as nat) + digits@.reverse(),
            m == 0 ==> dec_str(n as nat) == digits@.reverse(),
        decreases m,
    {
        let d = digit_to_char((m % 10) as u8);
        let ghost old_digits = digits@;
        digits.push(d);
        proof {
            assert(digits@.reverse() =~= seq![d] + old_digits.reverse());
        }
        let ghost old_m = m as nat;
        m = m / 10;
        proof {
            if old_m < 10 {
                assert(dec_str(old_m) =~= seq![digit_char(old_m)]);
                assert(dec_str(n as nat) =~= digits@.reverse());
            } else {
                assert(dec_str(old_m) == dec_str(old_m / 10).push(digit_char(old_m % 10)));
                assert(dec_str(old_m) + old_digits.reverse() =~= dec_str(m as nat)
                    + digits@.reverse());
            }
        }
    }
    let mut out = String::new();
    let mut k: usize = digits.len();
    proof {
        assert(digits@.skip(k as int).reverse() =~= Seq::<char>::empty());
    }
    while k > 0
        invariant
            k <= digits@.len(),
            out@ == digits@.skip(k as int).reverse(),
        decreases k,
    {
        out.push(digits[k - 1]);
        k = k - 1;
        proof {
            assert(out@ =~= digits@.skip(k as int).reverse());
        }
    }
    proof {
        assert(digits@.skip(0).reverse() =~= digits@.reverse());
    }
    out
}

/// The output line of an alive proxy: address, port, country and organization
/// in the four-field comma format of the input.
pub open spec fn entry_line_spec(e: EntryView) -> Seq<char> {
    e.address + ","@ + dec_str(e.port as nat) + ","@ + e.country + ","@ + e.organization
}

/// Formats an alive entry as its output line.
pub fn format_entry(e: &AliveProxyEntry) -> (r: String)
    ensures
        r@ == entry_line_spec(e@),
{
    let mut r = String::from_str(e.address.as_str());
    r.append(",");
    let port_s = u16_to_string(e.port);
    r.append(port_s.as_str());
    r.append(",");
    r.append(e.country.as_str());
    r.append(",");
    r.append(e.organization.as_str());
    proof {
        assert(r@ =~= entry_line_spec(e@));
    }
    r
}

} // verus!
