//! History prefix stability guard: detects request-to-request drift of the
//! message history that is sent to the model.
//!
//! Prefix caching only hits when the messages of consecutive requests are
//! byte-identical and append-only. The guard compares per-message digests
//! (FNV-1a over the message's wire JSON) across outgoing requests and
//! reports the first divergence when the previous list is not a prefix of
//! the current one. Entries marked `None` are ephemeral (never persisted)
//! and are skipped on both sides.

use vstd::prelude::*;
use crate::session::{message_wire, message_wire_json, AgentMessage};
use vstd::utf8::encode_utf8;
use vstd::string::StringExecFns;
use crate::text::{decimal, decimal_string};

verus! {

broadcast use vstd::string::group_string_axioms;

/// FNV-1a 64-bit offset basis.
pub const FNV_OFFSET_BASIS: u64 = 0xcbf2_9ce4_8422_2325;

/// FNV-1a 64-bit prime.
pub const FNV_PRIME: u64 = 0x0000_0100_0000_01b3;

/// FNV-1a 64-bit hash of `bytes`.
pub open spec fn fnv1a(bytes: Seq<u8>) -> u64
    decreases bytes.len(),
{
    if bytes.len() == 0 {
        FNV_OFFSET_BASIS
    } else {
        vstd::wrapping::u64_specs::wrapping_mul(fnv1a(bytes.drop_last()) ^ (bytes.last() as u64), FNV_PRIME)
    }
}

/// Digest of one outgoing message.
#[derive(Clone, Copy, Debug, PartialEq, Eq, Structural)]
pub struct MessageDigest(pub u64);

impl MessageDigest {
    /// The FNV-1a digest of `bytes`.
    pub fn from_bytes(bytes: &[u8]) -> (d: MessageDigest)
        ensures
            d.0 == fnv1a(bytes@),
    {
        let mut hash: u64 = FNV_OFFSET_BASIS;
        let mut i: usize = 0;
        while i < bytes.len()
            invariant
                i <= bytes@.len(),
                hash == fnv1a(bytes@.take(i as int)),
            decreases bytes@.len() - i,
        {
            proof {
                assert(bytes@.take(i as int + 1).drop_last() =~= bytes@.take(i as int));
            }
            hash = (hash ^ (bytes[i] as u64)).wrapping_mul(FNV_PRIME);
            i = i + 1;
        }
        proof {
            assert(bytes@.take(bytes@.len() as int) =~= bytes@);
        }
        MessageDigest(hash)
    }

    /// The digest as `0x` and sixteen lowercase hexadecimal digits.
    pub fn to_hex_string(&self) -> (s: String)
        ensures
            s@ == seq!['0', 'x'] + hex16(self.0, 16),
    {
        let mut out = String::new();
        out.push('0');
        out.push('x');
        let ghost start = out@;
        let mut k: usize = 16;
        while k > 0
            invariant
                k <= 16,
                out@ == seq!['0', 'x'] + hex16(self.0, 16).take(16 - k),
            decreases k,
        {
            k = k - 1;
            let sh: u64 = (k as u64) * 4;
            let v: u64 = self.0;
            let bits: u64 = (v >> sh) & 0xf;
            assert(bits < 16) by (bit_vector)
                requires
                    bits == (v >> sh) & 0xf,
            ;
            let nibble = bits as u8;
            let c = hex_digit(nibble);
            proof {
                lemma_hex16_index(self.0, 16, (15 - k) as int);
                assert(hex16(self.0, 16).take(16 - k) =~= hex16(self.0, 16).take(16 - (k + 1)).push(c));
            }
            out.push(c);
        }
        proof {
            lemma_hex16_len(self.0, 16);
            assert(hex16(self.0, 16).take(16) =~= hex16(self.0, 16));
        }
        out
    }
}

/// The lowercase hexadecimal digit for `n < 16`.
pub open spec fn hex_char(n: u8) -> char {
    if n < 10 {
        ((n + 48) as u8) as char
    } else {
        ((n + 87) as u8) as char
    }
}

fn hex_digit(n: u8) -> (c: char)
    requires
        n < 16,
    ensures
        c == hex_char(n),
{
    if n < 10 {
        (n + 48) as char
    } else {
        (n + 87) as char
    }
}

/// The low `k` hexadecimal digits of `v`, most significant first.
pub open spec fn hex16(v: u64, k: nat) -> Seq<char>
    decreases k,
{
    if k == 0 {
        seq![]
    } else {
        seq![hex_char(((v >> (((k - 1) * 4) as u64)) & 0xf) as u8)] + hex16(v, (k - 1) as nat)
    }
}

proof fn lemma_hex16_index(v: u64, k: nat, i: int)
    requires
        0 <= i < k,
    ensures
        hex16(v, k).len() == k,
        hex16(v, k)[i] == hex_char(((v >> (((k - 1 - i) * 4) as u64)) & 0xf) as u8),
    decreases k,
{
    lemma_hex16_len(v, k);
    if i > 0 {
        lemma_hex16_index(v, (k - 1) as nat, i - 1);
    }
}

proof fn lemma_hex16_len(v: u64, k: nat)
    ensures
        hex16(v, k).len() == k,
    decreases k,
{
    if k > 0 {
        lemma_hex16_len(v, (k - 1) as nat);
    }
}


/// The digest of a message: FNV-1a over the UTF-8 bytes of its wire JSON.
pub open spec fn digest_of(m: AgentMessage) -> u64 {
    fnv1a(encode_utf8(message_wire(m)))
}

/// Compute the digest of one outgoing message. Two messages whose wire
/// forms (their JSON without `usage`) are equal get the same digest.
pub fn message_digest(msg: &AgentMessage) -> (d: MessageDigest)
    ensures
        d.0 == digest_of(*msg),
{
    let json = message_wire_json(msg);
    MessageDigest::from_bytes(json.as_str().as_bytes())
}

/// A detected prefix divergence between two consecutive outgoing requests.
#[derive(Clone, Copy, Debug, PartialEq, Eq, Structural)]
pub struct HistoryViolation {
    /// Position in the current (raw) list where the previous prefix
    /// diverges, or the current list's length when it shrank.
    pub index: usize,
    /// `true` when the current list is shorter than the previous one.
    pub shrank: bool,
    /// Digest of the previous message at the divergence point.
    pub previous: Option<MessageDigest>,
    /// Digest of the current message at the divergence point.
    pub current: Option<MessageDigest>,
}

/// A digest as shown in a violation report: its hexadecimal form, or `-`.
pub open spec fn digest_or_dash(d: Option<MessageDigest>) -> Seq<char> {
    match d {
        Some(m) => seq!['0', 'x'] + hex16(m.0, 16),
        None => seq!['-'],
    }
}

fn digest_or_dash_string(d: Option<MessageDigest>) -> (s: String)
    ensures
        s@ == digest_or_dash(d),
{
    match d {
        Some(m) => m.to_hex_string(),
        None => {
            let mut out = String::new();
            out.push('-');
            out
        },
    }
}

/// The text of a violation report.
pub open spec fn violation_text(v: HistoryViolation) -> Seq<char> {
    if v.shrank {
        "history shrank at message "@ + decimal(v.index as nat) + " (previous digest "@
            + digest_or_dash(v.previous) + ")"@
    } else {
        "history diverged at message "@ + decimal(v.index as nat) + " (previous digest "@
            + digest_or_dash(v.previous) + ", current digest "@ + digest_or_dash(v.current)
            + ")"@
    }
}

impl HistoryViolation {
    /// The human-readable report of this violation.
    pub fn to_display_string(&self) -> (s: String)
        ensures
            s@ == violation_text(*self),
    {
        let index = decimal_string(self.index as u64);
        let previous = digest_or_dash_string(self.previous);
        let mut out = String::new();
        if self.shrank {
            out.append("history shrank at message ");
            out.append(index.as_str());
            out.append(" (previous digest ");
            out.append(previous.as_str());
            out.append(")");
        } else {
            let current = digest_or_dash_string(self.current);
            out.append("history diverged at message ");
            out.append(index.as_str());
            out.append(" (previous digest ");
            out.append(previous.as_str());
            out.append(", current digest ");
            out.append(current.as_str());
            out.append(")");
        }
        proof {
            assert(out@ =~= violation_text(*self));
        }
        out
    }
}

/// The persisted (non-`None`) digests of a list, in order.
pub open spec fn persisted(s: Seq<Option<MessageDigest>>) -> Seq<MessageDigest>
    decreases s.len(),
{
    if s.len() == 0 {
        seq![]
    } else {
        let p = persisted(s.drop_last());
        match s.last() {
            Some(d) => p.push(d),
            None => p,
        }
    }
}

/// Raw positions of the persisted digests of a list, in order.
pub open spec fn persisted_positions(s: Seq<Option<MessageDigest>>) -> Seq<int>
    decreases s.len(),
{
    if s.len() == 0 {
        seq![]
    } else {
        let p = persisted_positions(s.drop_last());
        if s.last() is Some {
            p.push(s.len() - 1)
        } else {
            p
        }
    }
}

/// First position `k >= from` where `prev` is not matched by `cur`.
pub open spec fn first_divergence(prev: Seq<MessageDigest>, cur: Seq<MessageDigest>, from: int) -> Option<int>
    decreases prev.len() - from,
{
    if from < 0 || from >= prev.len() {
        None
    } else if from >= cur.len() || cur[from] != prev[from] {
        Some(from)
    } else {
        first_divergence(prev, cur, from + 1)
    }
}

/// The violation reported when `prev` is followed by `cur`.
pub open spec fn violation_of(prev: Seq<Option<MessageDigest>>, cur: Seq<Option<MessageDigest>>) -> Option<HistoryViolation> {
    let p = persisted(prev);
    let c = persisted(cur);
    match first_divergence(p, c, 0) {
        None => None,
        Some(k) => if k >= c.len() {
            Some(HistoryViolation { index: cur.len() as usize, shrank: true, previous: Some(p[k]), current: None })
        } else {
            Some(
                HistoryViolation {
                    index: persisted_positions(cur)[k] as usize,
                    shrank: false,
                    previous: Some(p[k]),
                    current: Some(c[k]),
                },
            )
        },
    }
}

/// `a` is a prefix of `b`.
pub open spec fn is_prefix(a: Seq<MessageDigest>, b: Seq<MessageDigest>) -> bool {
    a.len() <= b.len() && b.take(a.len() as int) == a
}

/// Per-message digests of the most recent outgoing request.
pub struct HistoryGuard {
    previous: Vec<Option<MessageDigest>>,
}

impl View for HistoryGuard {
    type V = Seq<Option<MessageDigest>>;

    open spec fn view(&self) -> Seq<Option<MessageDigest>> {
        self.baseline()
    }
}

impl HistoryGuard {
    /// The digests of the last outgoing request (the baseline).
    pub closed spec fn baseline(&self) -> Seq<Option<MessageDigest>> {
        self.previous@
    }

    /// An empty guard (no outgoing request seen yet).
    pub fn new() -> (g: HistoryGuard)
        ensures
            g@ == Seq::<Option<MessageDigest>>::empty(),
    {
        HistoryGuard { previous: Vec::new() }
    }

    /// Check this request's digests against the previous outgoing list,
    /// then make `current` the new baseline. A violation is returned when
    /// the previous persisted digests are not a prefix of the current ones;
    /// an identical list (a retry) or a pure append is accepted.
    pub fn check_and_update(&mut self, current: &[Option<MessageDigest>]) -> (v: Option<HistoryViolation>)
        ensures
            v == violation_of(old(self)@, current@),
            final(self)@ == current@,
    {
        let v = self.violation(current);
        let mut copy: Vec<Option<MessageDigest>> = Vec::new();
        let mut i: usize = 0;
        while i < current.len()
            invariant
                i <= current@.len(),
                copy@ == current@.take(i as int),
            decreases current@.len() - i,
        {
            copy.push(current[i]);
            i = i + 1;
            assert(copy@ =~= current@.take(i as int));
        }
        assert(current@.take(current@.len() as int) =~= current@);
        self.previous = copy;
        v
    }

    /// Legitimate history rewrite (new session, resume, compaction): start
    /// from an empty baseline.
    pub fn reset(&mut self)
        ensures
            final(self)@ == Seq::<Option<MessageDigest>>::empty(),
    {
        self.previous.clear();
    }

    /// The violation `check_and_update` would report for `current`.
    pub fn violation(&self, current: &[Option<MessageDigest>]) -> (v: Option<HistoryViolation>)
        ensures
            v == violation_of(self@, current@),
    {
        let ghost prev = self.previous@;
        let ghost cur = current@;
        let ghost p = persisted(prev);
        let ghost c = persisted(cur);
        let mut pi: usize = 0;
        let mut ci: usize = 0;
        let ghost mut k: int = 0;
        proof {
            lemma_persisted_props(prev);
            lemma_persisted_props(cur);
            assert(prev.take(0) =~= Seq::<Option<MessageDigest>>::empty());
            assert(cur.take(0) =~= Seq::<Option<MessageDigest>>::empty());
        }
        loop
            invariant
                prev == self.previous@,
                cur == current@,
                p == persisted(prev),
                c == persisted(cur),
                pi <= prev.len(),
                ci <= cur.len(),
                persisted(prev.take(pi as int)).len() == k,
                persisted(cur.take(ci as int)).len() == k,
                first_divergence(p, c, 0) == first_divergence(p, c, k),
                0 <= k <= p.len(),
                k <= c.len(),
            decreases prev.len() - pi + cur.len() - ci,
        {
            // Skip ephemeral entries on both sides.
            let ghost pi0 = pi;
            let ghost ci0 = ci;
            while pi < self.previous.len() && self.previous[pi].is_none()
                invariant
                    prev == self.previous@,
                    pi0 <= pi <= prev.len(),
                    persisted(prev.take(pi as int)).len() == k,
                decreases prev.len() - pi,
            {
                proof {
                    assert(prev.take(pi as int + 1).drop_last() =~= prev.take(pi as int));
                }
                pi = pi + 1;
            }
            while ci < current.len() && current[ci].is_none()
                invariant
                    cur == current@,
                    ci0 <= ci <= cur.len(),
                    persisted(cur.take(ci as int)).len() == k,
                decreases cur.len() - ci,
            {
                proof {
                    assert(cur.take(ci as int + 1).drop_last() =~= cur.take(ci as int));
                }
                ci = ci + 1;
            }
            if pi >= self.previous.len() {
                proof {
                    assert(prev.take(pi as int) =~= prev);
                    assert(k == p.len());
                }
                return None;
            }
            proof {
                lemma_persisted_at(prev, pi as int);
                assert(p[k] == prev[pi as int].unwrap());
            }
            if ci >= current.len() {
                proof {
                    assert(cur.take(ci as int) =~= cur);
                    assert(k == c.len());
                }
                return Some(
                    HistoryViolation { index: ci, shrank: true, previous: self.previous[pi], current: None },
                );
            }
            proof {
                lemma_persisted_at(cur, ci as int);
                assert(c[k] == cur[ci as int].unwrap());
            }
            let pd = self.previous[pi].unwrap();
            let cd = current[ci].unwrap();
            if pd.0 != cd.0 {
                return Some(
                    HistoryViolation {
                        index: ci,
                        shrank: false,
                        previous: Some(pd),
                        current: Some(cd),
                    },
                );
            }
            proof {
                assert(prev.take(pi as int + 1).drop_last() =~= prev.take(pi as int));
                assert(cur.take(ci as int + 1).drop_last() =~= cur.take(ci as int));
                k = k + 1;
            }
            pi = pi + 1;
            ci = ci + 1;
        }
    }
}

/// Persisted digests and their positions line up.
proof fn lemma_persisted_props(s: Seq<Option<MessageDigest>>)
    ensures
        persisted(s).len() == persisted_positions(s).len(),
        forall|j: int|
            0 <= j < persisted(s).len() ==> 0 <= #[trigger] persisted_positions(s)[j] < s.len()
                && s[persisted_positions(s)[j]] == Some(persisted(s)[j]),
    decreases s.len(),
{
    if s.len() > 0 {
        lemma_persisted_props(s.drop_last());
    }
}

/// The persisted digests of a prefix are a prefix of the persisted digests.
proof fn lemma_persisted_take(s: Seq<Option<MessageDigest>>, i: int)
    requires
        0 <= i <= s.len(),
    ensures
        persisted(s.take(i)).len() <= persisted(s).len(),
        persisted(s).take(persisted(s.take(i)).len() as int) == persisted(s.take(i)),
        persisted_positions(s).take(persisted(s.take(i)).len() as int) == persisted_positions(s.take(i)),
    decreases s.len() - i,
{
    if i == s.len() {
        assert(s.take(i) =~= s);
        lemma_persisted_props(s);
        assert(persisted(s).take(persisted(s).len() as int) =~= persisted(s));
        assert(persisted_positions(s).take(persisted_positions(s).len() as int) =~= persisted_positions(s));
    } else {
        lemma_persisted_take(s, i + 1);
        assert(s.take(i + 1).drop_last() =~= s.take(i));
        lemma_persisted_props(s);
        lemma_persisted_props(s.take(i + 1));
        lemma_persisted_props(s.take(i));
        let a = persisted(s.take(i));
        let b = persisted(s.take(i + 1));
        assert(persisted(s).take(a.len() as int) =~= b.take(a.len() as int));
        assert(b.take(a.len() as int) =~= a);
        let pa = persisted_positions(s.take(i));
        let pb = persisted_positions(s.take(i + 1));
        assert(persisted_positions(s).take(a.len() as int) =~= pb.take(a.len() as int));
        assert(pb.take(a.len() as int) =~= pa);
    }
}

/// At a persisted entry `i`, the next persisted digest is that entry.
proof fn lemma_persisted_at(s: Seq<Option<MessageDigest>>, i: int)
    requires
        0 <= i < s.len(),
        s[i] is Some,
    ensures
        persisted(s.take(i)).len() < persisted(s).len(),
        persisted(s)[persisted(s.take(i)).len() as int] == s[i].unwrap(),
        persisted_positions(s)[persisted(s.take(i)).len() as int] == i,
{
    lemma_persisted_take(s, i + 1);
    lemma_persisted_props(s);
    assert(s.take(i + 1).drop_last() =~= s.take(i));
    let k = persisted(s.take(i)).len() as int;
    assert(persisted(s.take(i + 1)) == persisted(s.take(i)).push(s[i].unwrap()));
    assert(persisted(s).take(k + 1)[k] == s[i].unwrap());
    assert(persisted_positions(s.take(i + 1)) == persisted_positions(s.take(i)).push(i));
    assert(persisted_positions(s).take(k + 1)[k] == i);
}


/// Holds when `cur` matches `prev` at every position from `from` on.
pub open spec fn matches_from(prev: Seq<MessageDigest>, cur: Seq<MessageDigest>, from: int) -> bool {
    &&& from < prev.len() ==> prev.len() <= cur.len()
    &&& forall|j: int| from <= j < prev.len() ==> #[trigger] cur[j] == prev[j]
}

proof fn lemma_first_divergence(prev: Seq<MessageDigest>, cur: Seq<MessageDigest>, from: int)
    requires
        0 <= from <= prev.len(),
    ensures
        first_divergence(prev, cur, from) is None <==> matches_from(prev, cur, from),
    decreases prev.len() - from,
{
    if from < prev.len() {
        lemma_first_divergence(prev, cur, from + 1);
        if first_divergence(prev, cur, from) is None {
            assert(from < cur.len());
            assert(first_divergence(prev, cur, from + 1) is None);
            assert(matches_from(prev, cur, from + 1));
        } else if matches_from(prev, cur, from) {
            assert(cur[from] == prev[from]);
            assert(first_divergence(prev, cur, from) == first_divergence(prev, cur, from + 1));
        }
    }
}

/// Law: a request raises no violation exactly when the persisted digests
/// of the previous request are a prefix of the persisted digests of this
/// one; ephemeral entries never count.
pub proof fn law_no_violation_iff_prefix(prev: Seq<Option<MessageDigest>>, cur: Seq<Option<MessageDigest>>)
    ensures
        violation_of(prev, cur) is None <==> is_prefix(persisted(prev), persisted(cur)),
{
    let p = persisted(prev);
    let c = persisted(cur);
    lemma_first_divergence(p, c, 0);
    if is_prefix(p, c) {
        assert forall|j: int| 0 <= j < p.len() implies #[trigger] c[j] == p[j] by {
            assert(c.take(p.len() as int)[j] == c[j]);
        }
    }
    if first_divergence(p, c, 0) is None {
        assert(c.take(p.len() as int) =~= p);
    }
}

/// Law: re-sending the identical list (a retry) is never a violation.
pub proof fn law_identical_resend_is_silent(s: Seq<Option<MessageDigest>>)
    ensures
        violation_of(s, s) is None,
{
    law_no_violation_iff_prefix(s, s);
    assert(persisted(s).take(persisted(s).len() as int) =~= persisted(s));
}

proof fn lemma_persisted_append(s: Seq<Option<MessageDigest>>, t: Seq<Option<MessageDigest>>)
    ensures
        persisted(s + t) == persisted(s) + persisted(t),
    decreases t.len(),
{
    if t.len() == 0 {
        assert(s + t =~= s);
        assert(persisted(s) + persisted(t) =~= persisted(s));
    } else {
        lemma_persisted_append(s, t.drop_last());
        assert((s + t).drop_last() =~= s + t.drop_last());
        match t.last() {
            Some(d) => {
                assert(persisted(s) + persisted(t.drop_last()).push(d) =~= (persisted(s) + persisted(
                    t.drop_last(),
                )).push(d));
            },
            None => {},
        }
    }
}

/// Law: appending messages (persisted or ephemeral) to the previous list is
/// never a violation.
pub proof fn law_pure_append_is_silent(s: Seq<Option<MessageDigest>>, t: Seq<Option<MessageDigest>>)
    ensures
        violation_of(s, s + t) is None,
{
    lemma_persisted_append(s, t);
    law_no_violation_iff_prefix(s, s + t);
    assert((persisted(s) + persisted(t)).take(persisted(s).len() as int) =~= persisted(s));
}

/// Law: after a reset (or before any request) nothing is a violation.
pub proof fn law_fresh_baseline_is_silent(cur: Seq<Option<MessageDigest>>)
    ensures
        violation_of(Seq::<Option<MessageDigest>>::empty(), cur) is None,
{
    assert(persisted(Seq::<Option<MessageDigest>>::empty()) =~= Seq::<MessageDigest>::empty());
}

/// Law: token usage never changes a message's digest; two assistant
/// messages with the same blocks have the same digest whatever their usage.
pub proof fn law_usage_does_not_change_digest(
    content: Vec<crate::session::ContentBlock>,
    u1: Option<crate::session::Usage>,
    u2: Option<crate::session::Usage>,
)
    ensures
        digest_of(AgentMessage::Assistant { content: content, usage: u1 }) == digest_of(
            AgentMessage::Assistant { content: content, usage: u2 },
        ),
{
}

} // verus!
