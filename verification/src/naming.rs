//! Names of pods and services, and text that is safe inside them.

use vstd::prelude::*;
use vstd::utf8::encode_utf8;
use crate::execution_identity::{JobExecutionKeyView, PodExecutionIdentity, PodExecutionIdentityView};
use crate::text::{
    chars_of, decimal, join2, join3, lemma_decimal_digits, lemma_decimal_len, pow10, text_of, u32_text,
};

verus! {

/// What `str::to_lowercase` makes of a text.
pub uninterp spec fn lowercase(s: Seq<char>) -> Seq<char>;

/// The lowercase of an ASCII letter; every other character as it is.
pub open spec fn ascii_lower(c: char) -> char {
    if 'A' <= c <= 'Z' {
        ((c as u32) + 32) as char
    } else {
        c
    }
}

/// Whether every character is an ASCII character.
pub open spec fn is_ascii_text(s: Seq<char>) -> bool {
    forall|i: int| 0 <= i < s.len() ==> (#[trigger] s[i] as u32) < 128
}

/// `str::to_lowercase` gives the Unicode lowercase of a text. On ASCII text that
/// is the text with each letter from `A` to `Z` replaced by its lowercase; what
/// it is on other text is left unsaid.
#[verifier::external_body]
pub(crate) fn to_lowercase(s: &str) -> (out: String)
    ensures
        out@ == lowercase(s@),
        is_ascii_text(s@) ==> out@ == s@.map_values(|c: char| ascii_lower(c)),
{
    s.to_lowercase()
}

/// Whether a character may stand in a name.
pub open spec fn is_name_char(c: char) -> bool {
    'a' <= c <= 'z' || 'A' <= c <= 'Z' || '0' <= c <= '9' || c == '-'
}

/// The character that stands for `c` in a name.
pub open spec fn name_char(c: char) -> char {
    if is_name_char(c) {
        c
    } else {
        '-'
    }
}

/// `s` without the dashes at its start.
pub open spec fn trim_start_dashes(s: Seq<char>) -> Seq<char>
    decreases s.len(),
{
    if s.len() > 0 && s[0] == '-' {
        trim_start_dashes(s.skip(1))
    } else {
        s
    }
}

/// `s` without the dashes at its end.
pub open spec fn trim_end_dashes(s: Seq<char>) -> Seq<char>
    decreases s.len(),
{
    if s.len() > 0 && s.last() == '-' {
        trim_end_dashes(s.drop_last())
    } else {
        s
    }
}

/// The name made of a lowercased text.
pub open spec fn name_of_lowered(lower: Seq<char>) -> Seq<char> {
    trim_end_dashes(trim_start_dashes(lower.map_values(|c: char| name_char(c))))
}

/// Position of the first character that is no dash.
fn start_of_name(chars: &Vec<char>) -> (from: usize)
    ensures
        from <= chars@.len(),
        trim_start_dashes(chars@) == chars@.skip(from as int),
{
    let mut from: usize = 0;
    proof {
        assert(chars@.skip(0) =~= chars@);
    }
    while from < chars.len() && chars[from] == '-'
        invariant
            from <= chars@.len(),
            trim_start_dashes(chars@) == trim_start_dashes(chars@.skip(from as int)),
        decreases chars@.len() - from,
    {
        proof {
            assert(chars@.skip(from as int).skip(1) =~= chars@.skip(from + 1));
        }
        from = from + 1;
    }
    from
}

/// Position after the last character of `chars[from..to]` that is no dash.
fn end_of_name(chars: &Vec<char>, from: usize, to: usize) -> (end: usize)
    requires
        from <= to <= chars@.len(),
    ensures
        from <= end <= to,
        trim_end_dashes(chars@.subrange(from as int, to as int)) == chars@.subrange(
            from as int,
            end as int,
        ),
{
    let mut end: usize = to;
    while from < end && chars[end - 1] == '-'
        invariant
            from <= end <= to <= chars@.len(),
            trim_end_dashes(chars@.subrange(from as int, to as int)) == trim_end_dashes(
                chars@.subrange(from as int, end as int),
            ),
        decreases end - from,
    {
        proof {
            assert(chars@.subrange(from as int, end as int).drop_last() =~= chars@.subrange(
                from as int,
                end - 1,
            ));
        }
        end = end - 1;
    }
    end
}

/// The name made of a lowercased text.
pub fn sanitize_lowered(lower: &str) -> (out: String)
    ensures
        out@ == name_of_lowered(lower@),
{
    let raw: Vec<char> = chars_of(lower);
    let mut chars: Vec<char> = Vec::new();
    let mut i: usize = 0;
    let ghost mapped = lower@.map_values(|c: char| name_char(c));
    while i < raw.len()
        invariant
            i <= raw@.len(),
            raw@ == lower@,
            mapped == lower@.map_values(|c: char| name_char(c)),
            chars@ == mapped.take(i as int),
        decreases raw@.len() - i,
    {
        let c: char = raw[i];
        let kept: char = if ('a' <= c && c <= 'z') || ('A' <= c && c <= 'Z') || ('0' <= c && c
            <= '9') || c == '-' {
            c
        } else {
            '-'
        };
        chars.push(kept);
        i = i + 1;
        proof {
            assert(mapped.take(i as int) =~= mapped.take(i - 1).push(mapped[i - 1]));
        }
    }
    proof {
        assert(mapped.take(i as int) =~= mapped);
    }
    let from: usize = start_of_name(&chars);
    let end: usize = end_of_name(&chars, from, chars.len());
    proof {
        assert(chars@.skip(from as int) =~= chars@.subrange(from as int, chars@.len() as int));
    }
    text_of(&chars, from, end)
}

/// A text made safe for a resource name: lowercase, with dashes in place of
/// other characters, and no dash at either end.
pub fn sanitize_k8s_name(s: &str) -> (out: String)
    ensures
        out@ == name_of_lowered(lowercase(s@)),
{
    let lower = to_lowercase(s);
    sanitize_lowered(lower.as_str())
}

/// A name cut to the length of a label value.
pub open spec fn label_of_name(name: Seq<char>) -> Seq<char> {
    trim_end_dashes(
        name.take(
            if name.len() < 63 {
                name.len() as int
            } else {
                63
            },
        ),
    )
}

/// A name cut to the length of a label value.
pub fn label_value_of_name(name: &str) -> (out: String)
    ensures
        out@ == label_of_name(name@),
{
    let chars: Vec<char> = chars_of(name);
    let to: usize = if chars.len() < 63 {
        chars.len()
    } else {
        63
    };
    proof {
        assert(chars@.subrange(0, to as int) =~= chars@.take(to as int));
    }
    let end: usize = end_of_name(&chars, 0, to);
    text_of(&chars, 0, end)
}

/// A text made safe for a label value.
pub fn sanitize_k8s_label_value(value: &str) -> (out: String)
    ensures
        out@ == label_of_name(name_of_lowered(lowercase(value@))),
{
    let name = sanitize_k8s_name(value);
    label_value_of_name(name.as_str())
}

/// The least significant `k` bytes of `n`, the lowest first.
pub open spec fn le_bytes(n: nat, k: nat) -> Seq<u8>
    decreases k,
{
    if k == 0 {
        Seq::empty()
    } else {
        seq![(n % 256) as u8] + le_bytes(n / 256, (k - 1) as nat)
    }
}

fn u64_le_bytes(n: u64, k: usize) -> (out: Vec<u8>)
    ensures
        out@ == le_bytes(n as nat, k as nat),
{
    let mut out: Vec<u8> = Vec::new();
    let mut rest: u64 = n;
    let mut i: usize = 0;
    while i < k
        invariant
            i <= k,
            le_bytes(n as nat, k as nat) == out@ + le_bytes(rest as nat, (k - i) as nat),
        decreases k - i,
    {
        let ghost before = out@;
        out.push((rest % 256) as u8);
        proof {
            let tail = le_bytes(rest as nat / 256, (k - i - 1) as nat);
            assert(before + (seq![(rest % 256) as u8] + tail) =~= out@ + tail);
        }
        rest = rest / 256;
        i = i + 1;
    }
    proof {
        assert(out@ + Seq::<u8>::empty() =~= out@);
    }
    out
}

/// One step of the 64-bit FNV-1a hash.
pub open spec fn fnv_step(digest: u64, byte: u8) -> u64 {
    (digest ^ (byte as u64)).wrapping_mul(0x100000001b3)
}

/// The FNV-1a hash of `bytes`, continued from `digest`.
pub open spec fn fnv(digest: u64, bytes: Seq<u8>) -> u64
    decreases bytes.len(),
{
    if bytes.len() == 0 {
        digest
    } else {
        fnv_step(fnv(digest, bytes.drop_last()), bytes.last())
    }
}

/// The hash continued over one part, which is preceded by its length.
pub open spec fn fnv_part(digest: u64, part: Seq<u8>) -> u64 {
    fnv(fnv(digest, le_bytes(part.len(), 8)), part)
}

fn fnv_bytes(digest: u64, bytes: &[u8]) -> (out: u64)
    ensures
        out == fnv(digest, bytes@),
{
    let mut out: u64 = digest;
    let mut i: usize = 0;
    proof {
        assert(bytes@.take(0) =~= Seq::<u8>::empty());
    }
    while i < bytes.len()
        invariant
            i <= bytes@.len(),
            out == fnv(digest, bytes@.take(i as int)),
        decreases bytes@.len() - i,
    {
        proof {
            assert(bytes@.take(i + 1).drop_last() =~= bytes@.take(i as int));
        }
        out = (out ^ (bytes[i] as u64)).wrapping_mul(0x100000001b3);
        i = i + 1;
    }
    proof {
        assert(bytes@.take(i as int) =~= bytes@);
    }
    out
}

fn fnv_update(digest: u64, part: &[u8]) -> (out: u64)
    ensures
        out == fnv_part(digest, part@),
{
    let length: Vec<u8> = u64_le_bytes(part.len() as u64, 8);
    fnv_bytes(fnv_bytes(digest, length.as_slice()), part)
}

/// The digest that the workers of one execution share.
pub open spec fn execution_digest(key: JobExecutionKeyView) -> u64 {
    fnv_part(
        fnv_part(
            fnv_part(0xcbf29ce484222325, le_bytes(key.job_id as nat, 4)),
            encode_utf8(key.submission_generation),
        ),
        le_bytes(key.run_attempt as nat, 4),
    )
}

/// The digest of one execution on one worker.
pub open spec fn worker_digest(identity: PodExecutionIdentityView) -> u64 {
    fnv_part(execution_digest(identity.key), encode_utf8(identity.worker_incarnation))
}

fn digest_execution(identity: &PodExecutionIdentity) -> (out: u64)
    ensures
        out == execution_digest(identity@.key),
{
    let job_id: Vec<u8> = u64_le_bytes(identity.key.job_id as u64, 4);
    let run_attempt: Vec<u8> = u64_le_bytes(identity.key.run_attempt as u64, 4);
    let a: u64 = fnv_update(0xcbf29ce484222325u64, job_id.as_slice());
    let b: u64 = fnv_update(a, identity.key.submission_generation.as_str().as_bytes());
    fnv_update(b, run_attempt.as_slice())
}

/// The lowercase hexadecimal digit of a value below sixteen.
pub open spec fn hex_char(d: nat) -> char {
    if d < 10 {
        (('0' as nat) + d) as char
    } else {
        (('a' as nat) + (d - 10) as nat) as char
    }
}

/// The least significant `k` hexadecimal digits of `n`.
pub open spec fn hex(n: nat, k: nat) -> Seq<char>
    decreases k,
{
    if k == 0 {
        Seq::empty()
    } else {
        hex(n / 16, (k - 1) as nat).push(hex_char(n % 16))
    }
}

fn hex_digit(d: u64) -> (c: char)
    requires
        d < 16,
    ensures
        c == hex_char(d as nat),
{
    match d {
        0 => '0',
        1 => '1',
        2 => '2',
        3 => '3',
        4 => '4',
        5 => '5',
        6 => '6',
        7 => '7',
        8 => '8',
        9 => '9',
        10 => 'a',
        11 => 'b',
        12 => 'c',
        13 => 'd',
        14 => 'e',
        _ => 'f',
    }
}

/// The least significant `k` hexadecimal digits of `n`.
pub fn hex_text(n: u64, k: u32) -> (out: String)
    ensures
        out@ == hex(n as nat, k as nat),
    decreases k,
{
    if k == 0 {
        String::new()
    } else {
        let mut out: String = hex_text(n / 16, k - 1);
        out.push(hex_digit(n % 16));
        out
    }
}

proof fn lemma_hex(n: nat, k: nat)
    ensures
        hex(n, k).len() == k,
        forall|i: int| 0 <= i < k ==> #[trigger] hex(n, k)[i] != '-',
    decreases k,
{
    if k > 0 {
        lemma_hex(n / 16, (k - 1) as nat);
        let d = n % 16;
        assert(hex_char(d) != '-');
    }
}

/// The part of a name that tells executions apart.
pub open spec fn digest_name(job_id: u32, digest: u64) -> Seq<char> {
    "spur-job-"@ + decimal(job_id as nat) + "-"@ + hex(digest as nat, 16)
}

fn digest_name_text(job_id: u32, digest: u64) -> (out: String)
    ensures
        out@ == digest_name(job_id, digest),
{
    let id = u32_text(job_id);
    let head = join3("spur-job-", id.as_str(), "-");
    let tail = hex_text(digest, 16);
    join2(head.as_str(), tail.as_str())
}

/// The distinguishing part of a name ends in a digit, and with it the name of a
/// service fits in a DNS label.
pub proof fn lemma_digest_name(job_id: u32, digest: u64)
    ensures
        26 < digest_name(job_id, digest).len() <= 36,
        digest_name(job_id, digest).last() != '-',
{
    reveal_strlit("spur-job-");
    reveal_strlit("-");
    lemma_hex(digest as nat, 16);
    lemma_decimal_digits(job_id as nat);
    assert(pow10(10) == 10_000_000_000) by {
        reveal_with_fuel(pow10, 11);
    }
    lemma_decimal_len(job_id as nat, 10);
    let h = hex(digest as nat, 16);
    assert(digest_name(job_id, digest).last() == h[15]);
}

/// The name of an execution's pod on a node whose name has been made safe.
pub open spec fn pod_name_on(identity: PodExecutionIdentityView, node: Seq<char>) -> Seq<char> {
    let prefix = digest_name(identity.key.job_id, worker_digest(identity));
    if node.len() == 0 {
        prefix
    } else {
        let room: nat = if prefix.len() + 1 < 253 {
            (253 - (prefix.len() + 1)) as nat
        } else {
            0
        };
        let kept: nat = if node.len() < room {
            node.len()
        } else {
            room
        };
        trim_end_dashes(prefix + "-"@ + node.take(kept as int))
    }
}

/// The name of an execution's pod on a node whose name has been made safe. The
/// digest is kept whole; only the node's name is cut to the length that a name
/// may have.
pub fn pod_name_on_node(identity: &PodExecutionIdentity, node: &str) -> (out: String)
    ensures
        out@ == pod_name_on(identity@, node@),
{
    let digest: u64 = fnv_update(
        digest_execution(identity),
        identity.worker_incarnation.as_str().as_bytes(),
    );
    let prefix = digest_name_text(identity.key.job_id, digest);
    let node_chars: Vec<char> = chars_of(node);
    if node_chars.len() == 0 {
        return prefix;
    }
    let prefix_len: usize = chars_of(prefix.as_str()).len();
    proof {
        lemma_digest_name(identity@.key.job_id, digest);
    }
    let room: usize = 253 - (prefix_len + 1);
    let kept: usize = if node_chars.len() < room {
        node_chars.len()
    } else {
        room
    };
    let node_part = text_of(&node_chars, 0, kept);
    proof {
        assert(node_chars@.subrange(0, kept as int) =~= node@.take(kept as int));
    }
    let whole = join3(prefix.as_str(), "-", node_part.as_str());
    let chars: Vec<char> = chars_of(whole.as_str());
    let end: usize = end_of_name(&chars, 0, chars.len());
    proof {
        assert(chars@.subrange(0, chars@.len() as int) =~= chars@);
    }
    text_of(&chars, 0, end)
}

/// The name of an execution's pod on its node, stable across restarts.
pub fn execution_pod_name(identity: &PodExecutionIdentity, target_node: &str) -> (out: String)
    ensures
        out@ == pod_name_on(identity@, name_of_lowered(lowercase(target_node@))),
{
    let node = sanitize_k8s_name(target_node);
    pod_name_on_node(identity, node.as_str())
}

/// The name of the service that the workers of one execution share.
pub open spec fn service_name(key: JobExecutionKeyView) -> Seq<char> {
    digest_name(key.job_id, execution_digest(key))
}

/// The name of the service that the workers of one execution share.
pub fn execution_service_name(identity: &PodExecutionIdentity) -> (out: String)
    ensures
        out@ == service_name(identity@.key),
{
    let digest: u64 = digest_execution(identity);
    digest_name_text(identity.key.job_id, digest)
}

/// The host name of the pod with a rank.
pub open spec fn pod_hostname(node_rank: u32) -> Seq<char> {
    "rank-"@ + decimal(node_rank as nat)
}

/// The host name of the pod with a rank.
pub fn execution_pod_hostname(node_rank: u32) -> (out: String)
    ensures
        out@ == pod_hostname(node_rank),
{
    let rank = u32_text(node_rank);
    join2("rank-", rank.as_str())
}

/// The DNS name of the pod with rank zero.
pub open spec fn rank_zero_dns_name(key: JobExecutionKeyView, namespace: Seq<char>) -> Seq<char> {
    pod_hostname(0) + "."@ + service_name(key) + "."@ + namespace + ".svc.cluster.local"@
}

/// The DNS name of the pod with rank zero.
pub fn execution_rank_zero_dns_name(identity: &PodExecutionIdentity, namespace: &str) -> (out:
    String)
    ensures
        out@ == rank_zero_dns_name(identity@.key, namespace@),
{
    let host = execution_pod_hostname(0);
    let service = execution_service_name(identity);
    let head = join3(host.as_str(), ".", service.as_str());
    let middle = join3(head.as_str(), ".", namespace);
    join2(middle.as_str(), ".svc.cluster.local")
}

/// Trimming keeps a prefix of the text.
pub proof fn lemma_trim_end(s: Seq<char>)
    ensures
        trim_end_dashes(s).len() <= s.len(),
        trim_end_dashes(s) == s.take(trim_end_dashes(s).len() as int),
        trim_end_dashes(s).len() > 0 ==> trim_end_dashes(s).last() != '-',
        forall|i: int| trim_end_dashes(s).len() <= i < s.len() ==> #[trigger] s[i] == '-',
    decreases s.len(),
{
    if s.len() > 0 && s.last() == '-' {
        lemma_trim_end(s.drop_last());
        let n = trim_end_dashes(s).len() as int;
        assert(s.drop_last().take(n) =~= s.take(n));
        assert forall|i: int| n <= i < s.len() implies #[trigger] s[i] == '-' by {
            if i < s.len() - 1 {
                assert(s.drop_last()[i] == '-');
            }
        }
    } else {
        assert(s.take(s.len() as int) =~= s);
    }
}

/// Trimming keeps a suffix of the text.
pub proof fn lemma_trim_start(s: Seq<char>)
    ensures
        trim_start_dashes(s).len() <= s.len(),
        trim_start_dashes(s) == s.skip(s.len() - trim_start_dashes(s).len()),
        trim_start_dashes(s).len() > 0 ==> trim_start_dashes(s)[0] != '-',
    decreases s.len(),
{
    if s.len() > 0 && s[0] == '-' {
        lemma_trim_start(s.skip(1));
        let t = trim_start_dashes(s.skip(1));
        assert(s.skip(1).skip(s.len() - 1 - t.len()) =~= s.skip(s.len() - t.len()));
    } else {
        assert(s.skip(0) =~= s);
    }
}

/// A name holds only letters, digits and dashes, and no dash at either end.
pub proof fn law_name_is_safe(lower: Seq<char>)
    ensures
        forall|i: int|
            0 <= i < name_of_lowered(lower).len() ==> is_name_char(
                #[trigger] name_of_lowered(lower)[i],
            ),
        name_of_lowered(lower).len() > 0 ==> name_of_lowered(lower)[0] != '-',
        name_of_lowered(lower).len() > 0 ==> name_of_lowered(lower).last() != '-',
        name_of_lowered(lower).len() <= lower.len(),
{
    let mapped = lower.map_values(|c: char| name_char(c));
    let left = trim_start_dashes(mapped);
    let name = name_of_lowered(lower);
    lemma_trim_start(mapped);
    lemma_trim_end(left);
    assert forall|i: int| 0 <= i < name.len() implies is_name_char(#[trigger] name[i]) by {
        assert(name[i] == left[i]);
        assert(left[i] == mapped[i + mapped.len() - left.len()]);
    }
    if name.len() > 0 {
        assert(name[0] == left[0]);
    }
}

/// Making a name safe a second time changes nothing.
pub proof fn law_name_is_stable(lower: Seq<char>)
    ensures
        name_of_lowered(name_of_lowered(lower)) == name_of_lowered(lower),
{
    let name = name_of_lowered(lower);
    law_name_is_safe(lower);
    let mapped = name.map_values(|c: char| name_char(c));
    assert(mapped =~= name);
}

/// A label value has at most 63 characters and does not end in a dash.
pub proof fn law_label_is_bounded(name: Seq<char>)
    ensures
        label_of_name(name).len() <= 63,
        label_of_name(name).len() > 0 ==> label_of_name(name).last() != '-',
{
    let n: int = if name.len() < 63 {
        name.len() as int
    } else {
        63
    };
    lemma_trim_end(name.take(n));
}

/// A pod name has at most 253 characters, keeps the digest of its execution
/// whole and does not end in a dash.
pub proof fn law_pod_name_is_bounded(identity: PodExecutionIdentityView, node: Seq<char>)
    ensures
        pod_name_on(identity, node).len() <= 253,
        digest_name(identity.key.job_id, worker_digest(identity)).is_prefix_of(
            pod_name_on(identity, node),
        ),
        pod_name_on(identity, node).last() != '-',
{
    let prefix = digest_name(identity.key.job_id, worker_digest(identity));
    lemma_digest_name(identity.key.job_id, worker_digest(identity));
    reveal_strlit("-");
    if node.len() > 0 {
        let room: nat = (253 - (prefix.len() + 1)) as nat;
        let kept: nat = if node.len() < room {
            node.len()
        } else {
            room
        };
        let whole = prefix + "-"@ + node.take(kept as int);
        let name = pod_name_on(identity, node);
        lemma_trim_end(whole);
        if name.len() < prefix.len() {
            assert(whole[prefix.len() - 1] == '-');
            assert(whole[prefix.len() - 1] == prefix.last());
        }
        assert(name.subrange(0, prefix.len() as int) =~= prefix);
    } else {
        assert(prefix.subrange(0, prefix.len() as int) =~= prefix);
    }
}

/// A service name fits in a DNS label.
pub proof fn law_service_name_is_bounded(key: JobExecutionKeyView)
    ensures
        service_name(key).len() <= 63,
{
    lemma_digest_name(key.job_id, execution_digest(key));
}

/// The workers of one execution use the same service and the same address of
/// rank zero.
pub proof fn law_peers_share_service(
    a: PodExecutionIdentityView,
    b: PodExecutionIdentityView,
    namespace: Seq<char>,
)
    requires
        a.key == b.key,
    ensures
        service_name(a.key) == service_name(b.key),
        rank_zero_dns_name(a.key, namespace) == rank_zero_dns_name(b.key, namespace),
{
}

/// A name that the cluster accepts is kept as it is, and a character that it does
/// not accept becomes a dash.
pub proof fn law_good_names_are_kept(lower: Seq<char>)
    requires
        forall|i: int|
            0 <= i < lower.len() ==> ('a' <= #[trigger] lower[i] <= 'z' || '0' <= lower[i] <= '9'
                || lower[i] == '-'),
        lower.len() > 0 ==> lower[0] != '-' && lower.last() != '-',
    ensures
        name_of_lowered(lower) == lower,
        lower.len() <= 63 ==> label_of_name(lower) == lower,
{
    let mapped = lower.map_values(|c: char| name_char(c));
    assert(mapped =~= lower) by {
        assert forall|i: int| 0 <= i < lower.len() implies mapped[i] == lower[i] by {
            assert('a' <= lower[i] <= 'z' || '0' <= lower[i] <= '9' || lower[i] == '-');
        }
    }
    assert(lower.take(lower.len() as int) =~= lower);
}

/// Inside a name, each character that is not a letter, a digit or a dash is a dash,
/// and the others are where they were.
pub proof fn law_bad_characters_become_dashes(front: Seq<char>, c: char, back: Seq<char>)
    requires
        forall|i: int|
            0 <= i < front.len() ==> ('a' <= #[trigger] front[i] <= 'z' || '0' <= front[i] <= '9'),
        forall|i: int|
            0 <= i < back.len() ==> ('a' <= #[trigger] back[i] <= 'z' || '0' <= back[i] <= '9'),
        front.len() > 0,
        back.len() > 0,
        !('a' <= c <= 'z' || 'A' <= c <= 'Z' || '0' <= c <= '9'),
    ensures
        name_of_lowered(front + seq![c] + back) == front + seq!['-'] + back,
{
    let lower = front + seq![c] + back;
    let mapped = lower.map_values(|c: char| name_char(c));
    let want = front + seq!['-'] + back;
    assert(mapped =~= want) by {
        assert forall|i: int| 0 <= i < want.len() implies mapped[i] == want[i] by {
            if i < front.len() {
                assert('a' <= front[i] <= 'z' || '0' <= front[i] <= '9');
            } else if i > front.len() {
                let j = i - front.len() - 1;
                assert('a' <= back[j] <= 'z' || '0' <= back[j] <= '9');
            }
        }
    }
    assert('a' <= front[0] <= 'z' || '0' <= front[0] <= '9');
    assert('a' <= back[back.len() - 1] <= 'z' || '0' <= back[back.len() - 1] <= '9');
    assert(want[0] == front[0]);
    assert(want.last() == back[back.len() - 1]);
}

proof fn lemma_hex_char(a: nat, b: nat)
    requires
        a < 16,
        b < 16,
        hex_char(a) == hex_char(b),
    ensures
        a == b,
{
}

/// Two numbers of so many digits in base sixteen have different texts.
pub proof fn law_hex_tells_numbers_apart(a: nat, b: nat, k: nat)
    requires
        hex(a, k) == hex(b, k),
        a < vstd::arithmetic::power::pow(16, k),
        b < vstd::arithmetic::power::pow(16, k),
    ensures
        a == b,
        hex(a, k).len() == k,
    decreases k,
{
    vstd::arithmetic::power::lemma_pow_positive(16, k);
    if k == 0 {
        vstd::arithmetic::power::lemma_pow0(16);
    } else {
        let j = (k - 1) as nat;
        vstd::arithmetic::power::lemma_pow_positive(16, j);
        assert(vstd::arithmetic::power::pow(16, k) == 16 * vstd::arithmetic::power::pow(16, j)) by {
            reveal(vstd::arithmetic::power::pow);
        }
        assert(hex(a, k).drop_last() =~= hex(a / 16, j));
        assert(hex(b, k).drop_last() =~= hex(b / 16, j));
        assert(hex(a, k).last() == hex_char(a % 16));
        assert(hex(b, k).last() == hex_char(b % 16));
        lemma_hex_char(a % 16, b % 16);
        law_hex_tells_numbers_apart(a / 16, b / 16, j);
    }
}

/// The names of the pods and of the service of a job start with the job's number,
/// so that a reader finds them, and pods of one execution on different nodes share
/// what stands before the node.
pub proof fn law_names_show_the_job(identity: PodExecutionIdentityView, node: Seq<char>)
    ensures
        ("spur-job-"@ + decimal(identity.key.job_id as nat) + "-"@).is_prefix_of(
            pod_name_on(identity, node),
        ),
        ("spur-job-"@ + decimal(identity.key.job_id as nat) + "-"@).is_prefix_of(
            service_name(identity.key),
        ),
        service_name(identity.key).len() == 26 + decimal(identity.key.job_id as nat).len(),
{
    law_pod_name_is_bounded(identity, node);
    reveal_strlit("spur-job-");
    reveal_strlit("-");
    let head = "spur-job-"@ + decimal(identity.key.job_id as nat) + "-"@;
    let prefix = digest_name(identity.key.job_id, worker_digest(identity));
    let name = pod_name_on(identity, node);
    lemma_hex_len(worker_digest(identity) as nat, 16);
    lemma_hex_len(execution_digest(identity.key) as nat, 16);
    assert(prefix =~= head + hex(worker_digest(identity) as nat, 16));
    assert(prefix.subrange(0, head.len() as int) =~= head);
    assert(name.subrange(0, prefix.len() as int) =~= prefix);
    assert(name.subrange(0, head.len() as int) =~= prefix.subrange(0, head.len() as int));
    assert(service_name(identity.key).subrange(0, head.len() as int) =~= head);
}

proof fn lemma_hex_len(n: nat, k: nat)
    ensures
        hex(n, k).len() == k,
    decreases k,
{
    if k > 0 {
        lemma_hex_len(n / 16, (k - 1) as nat);
    }
}

/// Pods with different ranks have different host names.
pub proof fn law_ranks_have_their_own_hosts(a: u32, b: u32)
    requires
        pod_hostname(a) == pod_hostname(b),
    ensures
        a == b,
{
    reveal_strlit("rank-");
    assert(pod_hostname(a).skip(5) =~= decimal(a as nat));
    assert(pod_hostname(b).skip(5) =~= decimal(b as nat));
    crate::text::law_decimal_injective(a as nat, b as nat);
}

/// A step of the digest is undone by a step back: two digests that meet were the
/// same before.
proof fn lemma_step_keeps_apart(a: u64, b: u64, byte: u8)
    requires
        fnv_step(a, byte) == fnv_step(b, byte),
    ensures
        a == b,
{
    let x = a ^ (byte as u64);
    let y = b ^ (byte as u64);
    lemma_factor_keeps_apart(x, y);
    assert(a == b) by (bit_vector)
        requires
            a ^ (byte as u64) == b ^ (byte as u64),
    ;
}

/// Two numbers with the same product by the digest's factor are the same.
proof fn lemma_factor_keeps_apart(x: u64, y: u64)
    requires
        x.wrapping_mul(0x100000001b3) == y.wrapping_mul(0x100000001b3),
    ensures
        x == y,
{
    let m: int = 0x1_0000_0000_0000_0000;
    let c: int = 0x100000001b3;
    let inverse: int = 0xce965057aff6957b;
    assert(c * inverse == 887285111055 * m + 1);
    lemma_undone(x as int, c, inverse, m, 887285111055);
    lemma_undone(y as int, c, inverse, m, 887285111055);
    assert((x * c) % m == (y * c) % m);
}

/// A product is undone by the inverse of its factor.
proof fn lemma_undone(x: int, c: int, inverse: int, m: int, k: int)
    requires
        0 <= x < m,
        c * inverse == k * m + 1,
    ensures
        (((x * c) % m) * inverse) % m == x,
{
    vstd::arithmetic::div_mod::lemma_mul_mod_noop_left(x * c, inverse, m);
    assert(x * c * inverse == x * (k * m + 1)) by (nonlinear_arith)
        requires
            c * inverse == k * m + 1,
    ;
    assert(x * (k * m + 1) == m * (x * k) + x) by (nonlinear_arith);
    vstd::arithmetic::div_mod::lemma_mod_multiples_vanish(x * k, x, m);
    vstd::arithmetic::div_mod::lemma_small_mod(x as nat, m as nat);
}

/// Digests that differ still differ after the same bytes.
proof fn lemma_bytes_keep_apart(a: u64, b: u64, bytes: Seq<u8>)
    requires
        a != b,
    ensures
        fnv(a, bytes) != fnv(b, bytes),
    decreases bytes.len(),
{
    if bytes.len() > 0 {
        lemma_bytes_keep_apart(a, b, bytes.drop_last());
        if fnv(a, bytes) == fnv(b, bytes) {
            lemma_step_keeps_apart(
                fnv(a, bytes.drop_last()),
                fnv(b, bytes.drop_last()),
                bytes.last(),
            );
        }
    }
}

/// Whether two texts of bytes have the same length and differ at one place.
pub open spec fn differ_once(a: Seq<u8>, b: Seq<u8>, at: int) -> bool {
    &&& a.len() == b.len()
    &&& 0 <= at < a.len()
    &&& a[at] != b[at]
    &&& forall|i: int| 0 <= i < a.len() && i != at ==> #[trigger] a[i] == b[i]
}

/// Bytes that differ at one place have different digests.
proof fn lemma_one_byte_tells_apart(digest: u64, a: Seq<u8>, b: Seq<u8>, at: int)
    requires
        differ_once(a, b, at),
    ensures
        fnv(digest, a) != fnv(digest, b),
    decreases a.len(),
{
    let x = a.drop_last();
    let y = b.drop_last();
    if at == a.len() - 1 {
        assert(x =~= y);
        let d = fnv(digest, x);
        let p = a.last();
        let q = b.last();
        if fnv(digest, a) == fnv(digest, b) {
            lemma_factor_keeps_apart(d ^ (p as u64), d ^ (q as u64));
            assert(p == q) by (bit_vector)
                requires
                    d ^ (p as u64) == d ^ (q as u64),
            ;
        }
    } else {
        assert forall|i: int| 0 <= i < x.len() && i != at implies #[trigger] x[i] == y[i] by {
            assert(a[i] == b[i]);
        }
        lemma_one_byte_tells_apart(digest, x, y, at);
        assert(a[a.len() - 1] == b[a.len() - 1]);
        if fnv(digest, a) == fnv(digest, b) {
            lemma_step_keeps_apart(fnv(digest, x), fnv(digest, y), a.last());
        }
    }
}

/// Two runs of a job do not share a service: the next attempt has another name,
/// and so has a submission whose generation differs in a place.
pub proof fn law_executions_have_their_own_services(
    job_id: u32,
    generation: Seq<char>,
    other_generation: Seq<char>,
    attempt: u32,
    other_attempt: u32,
    at: int,
)
    ensures
        attempt != other_attempt && attempt / 256 == other_attempt / 256 ==> service_name(
            JobExecutionKeyView { job_id, submission_generation: generation, run_attempt: attempt },
        ) != service_name(
            JobExecutionKeyView {
                job_id,
                submission_generation: generation,
                run_attempt: other_attempt,
            },
        ),
        differ_once(encode_utf8(generation), encode_utf8(other_generation), at) ==> service_name(
            JobExecutionKeyView { job_id, submission_generation: generation, run_attempt: attempt },
        ) != service_name(
            JobExecutionKeyView {
                job_id,
                submission_generation: other_generation,
                run_attempt: attempt,
            },
        ),
{
    let this = JobExecutionKeyView {
        job_id,
        submission_generation: generation,
        run_attempt: attempt,
    };
    let start = fnv_part(0xcbf29ce484222325, le_bytes(job_id as nat, 4));
    if attempt != other_attempt && attempt / 256 == other_attempt / 256 {
        let other = JobExecutionKeyView { run_attempt: other_attempt, ..this };
        let a = le_bytes(attempt as nat, 4);
        let b = le_bytes(other_attempt as nat, 4);
        lemma_le_bytes_len(attempt as nat, 4);
        lemma_le_bytes_len(other_attempt as nat, 4);
        let rest = le_bytes(attempt as nat / 256, 3);
        assert(a == seq![(attempt as nat % 256) as u8] + rest);
        assert(b == seq![(other_attempt as nat % 256) as u8] + rest);
        assert(differ_once(a, b, 0));
        let d = fnv(fnv_part(start, encode_utf8(generation)), le_bytes(4, 8));
        lemma_one_byte_tells_apart(d, a, b, 0);
        assert(execution_digest(this) != execution_digest(other));
        lemma_digest_names_apart(job_id, execution_digest(this), execution_digest(other));
    }
    if differ_once(encode_utf8(generation), encode_utf8(other_generation), at) {
        let other = JobExecutionKeyView { submission_generation: other_generation, ..this };
        let a = encode_utf8(generation);
        let b = encode_utf8(other_generation);
        let d = fnv(start, le_bytes(a.len(), 8));
        lemma_one_byte_tells_apart(d, a, b, at);
        let tail = le_bytes(attempt as nat, 4);
        lemma_bytes_keep_apart(fnv(d, a), fnv(d, b), le_bytes(tail.len(), 8));
        lemma_bytes_keep_apart(
            fnv(fnv(d, a), le_bytes(tail.len(), 8)),
            fnv(fnv(d, b), le_bytes(tail.len(), 8)),
            tail,
        );
        assert(execution_digest(this) != execution_digest(other));
        lemma_digest_names_apart(job_id, execution_digest(this), execution_digest(other));
    }
}

/// The pods of two incarnations of a worker do not share a name, where the
/// incarnations differ in a place; nor do those of two attempts.
pub proof fn law_incarnations_have_their_own_pods(
    identity: PodExecutionIdentityView,
    worker: Seq<char>,
    attempt: u32,
    node: Seq<char>,
    at: int,
)
    ensures
        differ_once(encode_utf8(identity.worker_incarnation), encode_utf8(worker), at)
            ==> pod_name_on(identity, node) != pod_name_on(
            PodExecutionIdentityView { worker_incarnation: worker, ..identity },
            node,
        ),
        attempt != identity.key.run_attempt && attempt / 256 == identity.key.run_attempt / 256
            ==> pod_name_on(identity, node) != pod_name_on(
            PodExecutionIdentityView {
                key: JobExecutionKeyView { run_attempt: attempt, ..identity.key },
                ..identity
            },
            node,
        ),
{
    if differ_once(encode_utf8(identity.worker_incarnation), encode_utf8(worker), at) {
        let other = PodExecutionIdentityView { worker_incarnation: worker, ..identity };
        let a = encode_utf8(identity.worker_incarnation);
        let b = encode_utf8(worker);
        let d = fnv(execution_digest(identity.key), le_bytes(a.len(), 8));
        lemma_one_byte_tells_apart(d, a, b, at);
        lemma_pod_names_apart(identity, other, node);
    }
    if attempt != identity.key.run_attempt && attempt / 256 == identity.key.run_attempt / 256 {
        let other = PodExecutionIdentityView {
            key: JobExecutionKeyView { run_attempt: attempt, ..identity.key },
            ..identity
        };
        law_executions_have_their_own_services(
            identity.key.job_id,
            identity.key.submission_generation,
            identity.key.submission_generation,
            identity.key.run_attempt,
            attempt,
            0,
        );
        assert(identity.key == JobExecutionKeyView {
            job_id: identity.key.job_id,
            submission_generation: identity.key.submission_generation,
            run_attempt: identity.key.run_attempt,
        });
        assert(other.key == JobExecutionKeyView {
            job_id: identity.key.job_id,
            submission_generation: identity.key.submission_generation,
            run_attempt: attempt,
        });
        assert(execution_digest(identity.key) != execution_digest(other.key));
        let w = encode_utf8(identity.worker_incarnation);
        lemma_bytes_keep_apart(
            execution_digest(identity.key),
            execution_digest(other.key),
            le_bytes(w.len(), 8),
        );
        lemma_bytes_keep_apart(
            fnv(execution_digest(identity.key), le_bytes(w.len(), 8)),
            fnv(execution_digest(other.key), le_bytes(w.len(), 8)),
            w,
        );
        lemma_pod_names_apart(identity, other, node);
    }
}

proof fn lemma_le_bytes_len(n: nat, k: nat)
    ensures
        le_bytes(n, k).len() == k,
    decreases k,
{
    if k > 0 {
        lemma_le_bytes_len(n / 256, (k - 1) as nat);
    }
}

proof fn lemma_digest_names_apart(job_id: u32, a: u64, b: u64)
    requires
        a != b,
    ensures
        digest_name(job_id, a) != digest_name(job_id, b),
{
    reveal_strlit("spur-job-");
    reveal_strlit("-");
    let head = "spur-job-"@ + decimal(job_id as nat) + "-"@;
    lemma_hex_len(a as nat, 16);
    lemma_hex_len(b as nat, 16);
    assert(digest_name(job_id, a).skip(head.len() as int) =~= hex(a as nat, 16));
    assert(digest_name(job_id, b).skip(head.len() as int) =~= hex(b as nat, 16));
    if digest_name(job_id, a) == digest_name(job_id, b) {
        assert(vstd::arithmetic::power::pow(16, 16) == 0x1_0000_0000_0000_0000) by {
            reveal_with_fuel(vstd::arithmetic::power::pow, 17);
        }
        law_hex_tells_numbers_apart(a as nat, b as nat, 16);
    }
}

proof fn lemma_pod_names_apart(
    a: PodExecutionIdentityView,
    b: PodExecutionIdentityView,
    node: Seq<char>,
)
    requires
        a.key.job_id == b.key.job_id,
        worker_digest(a) != worker_digest(b),
    ensures
        pod_name_on(a, node) != pod_name_on(b, node),
{
    let p = digest_name(a.key.job_id, worker_digest(a));
    let q = digest_name(b.key.job_id, worker_digest(b));
    lemma_digest_names_apart(a.key.job_id, worker_digest(a), worker_digest(b));
    law_pod_name_is_bounded(a, node);
    law_pod_name_is_bounded(b, node);
    lemma_hex_len(worker_digest(a) as nat, 16);
    lemma_hex_len(worker_digest(b) as nat, 16);
    assert(p.len() == q.len());
    if pod_name_on(a, node) == pod_name_on(b, node) {
        assert(pod_name_on(a, node).subrange(0, p.len() as int) =~= p);
        assert(pod_name_on(b, node).subrange(0, q.len() as int) =~= q);
    }
}

/// The name of a pod ends with the node it runs on, in full where there is room
/// for it and in as much as there is room for otherwise.
pub proof fn law_pod_name_ends_with_its_node(identity: PodExecutionIdentityView, node: Seq<char>)
    requires
        forall|i: int| 0 <= i < node.len() ==> #[trigger] node[i] != '-',
    ensures
        ({
            let head = digest_name(identity.key.job_id, worker_digest(identity));
            let name = pod_name_on(identity, node);
            &&& node.len() == 0 ==> name == head
            &&& node.len() > 0 && head.len() + 1 + node.len() <= 253 ==> name == head + seq!['-']
                + node
            &&& head.len() + 1 + node.len() > 253 ==> name == head + seq!['-'] + node.take(
                253 - head.len() - 1,
            )
        }),
{
    let head = digest_name(identity.key.job_id, worker_digest(identity));
    lemma_digest_name(identity.key.job_id, worker_digest(identity));
    reveal_strlit("-");
    assert("-"@ =~= seq!['-']);
    if node.len() > 0 {
        let room: nat = (253 - (head.len() + 1)) as nat;
        let kept: nat = if node.len() < room {
            node.len()
        } else {
            room
        };
        let part = node.take(kept as int);
        let whole = head + "-"@ + part;
        assert(part.len() > 0);
        assert(whole.last() == part.last());
        assert(part.last() == node[kept - 1]);
        assert(trim_end_dashes(whole) == whole);
        if node.len() <= room {
            assert(part =~= node);
        }
    }
}

} // verus!
