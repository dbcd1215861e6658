//! GPU vendors and requests.

use vstd::prelude::*;
use crate::execution_identity::is_blank_str;
use crate::naming::{lowercase, to_lowercase};
use crate::text::{decimal, has_prefix, join2, join3, same_text, starts_with_text, u32_text};

verus! {

/// Whether a lowercased GPU type is one of NVIDIA's.
pub open spec fn is_nvidia_type(lower: Seq<char>) -> bool {
    ||| starts_with_text(lower, "h100"@)
    ||| starts_with_text(lower, "h200"@)
    ||| starts_with_text(lower, "a100"@)
    ||| starts_with_text(lower, "a10g"@)
    ||| starts_with_text(lower, "a30"@)
    ||| starts_with_text(lower, "v100"@)
    ||| starts_with_text(lower, "t4"@)
    ||| starts_with_text(lower, "l4"@)
    ||| starts_with_text(lower, "l40"@)
    ||| starts_with_text(lower, "b100"@)
    ||| starts_with_text(lower, "b200"@)
    ||| starts_with_text(lower, "gb200"@)
    ||| starts_with_text(lower, "rtx"@)
    ||| lower == "nvidia"@
}

/// Whether a lowercased GPU type is one of NVIDIA's.
pub fn is_nvidia_lowered(lower: &str) -> (yes: bool)
    ensures
        yes == is_nvidia_type(lower@),
{
    has_prefix(lower, "h100") || has_prefix(lower, "h200") || has_prefix(lower, "a100")
        || has_prefix(lower, "a10g") || has_prefix(lower, "a30") || has_prefix(lower, "v100")
        || has_prefix(lower, "t4") || has_prefix(lower, "l4") || has_prefix(lower, "l40")
        || has_prefix(lower, "b100") || has_prefix(lower, "b200") || has_prefix(lower, "gb200")
        || has_prefix(lower, "rtx") || same_text(lower, "nvidia")
}

/// Whether a GPU type, in any case, is one of NVIDIA's.
pub fn is_nvidia_gpu(gpu_type: &str) -> (yes: bool)
    ensures
        yes == is_nvidia_type(lowercase(gpu_type@)),
{
    let lower = to_lowercase(gpu_type);
    is_nvidia_lowered(lower.as_str())
}

/// Whether a GPU type, where one is given, is one of NVIDIA's.
pub open spec fn asks_for_nvidia(gpu_type: Option<Seq<char>>) -> bool {
    match gpu_type {
        Some(t) => is_nvidia_type(lowercase(t)),
        None => false,
    }
}

/// The device-plugin resource that a GPU type is requested under.
pub open spec fn vendor_resource(nvidia: bool) -> Seq<char> {
    if nvidia {
        "nvidia.com/gpu"@
    } else {
        "amd.com/gpu"@
    }
}

/// The device-plugin resource that a GPU type is requested under. A type that is
/// not known is taken for one of AMD's.
pub fn gpu_vendor_resource_key(gpu_type: Option<&str>) -> (out: &'static str)
    ensures
        out@ == vendor_resource(asks_for_nvidia(gpu_type.deep_view())),
{
    let nvidia = match gpu_type {
        Some(t) => is_nvidia_gpu(t),
        None => false,
    };
    if nvidia {
        "nvidia.com/gpu"
    } else {
        "amd.com/gpu"
    }
}

/// The request text for so many GPUs of a type.
pub open spec fn gres_text(count: u32, gpu_type: Option<Seq<char>>) -> Seq<char> {
    let t = match gpu_type {
        Some(t) if t.len() > 0 => t,
        _ => "any"@,
    };
    "gpu:"@ + t + ":"@ + decimal(count as nat)
}

/// The request text for so many GPUs of a type.
pub fn gpu_request_to_gres(count: u32, gpu_type: Option<&str>) -> (out: String)
    ensures
        out@ == gres_text(count, gpu_type.deep_view()),
{
    let t: &str = match gpu_type {
        Some(t) => if is_blank_str(t) {
            "any"
        } else {
            t
        },
        None => "any",
    };
    let n = u32_text(count);
    let head = join3("gpu:", t, ":");
    join2(head.as_str(), n.as_str())
}

/// A GPU is asked for under the resource of its vendor: those named after NVIDIA's
/// products under NVIDIA's, and all others under AMD's.
pub proof fn law_each_vendor_has_its_resource(lower: Seq<char>, rest: Seq<char>)
    ensures
        is_nvidia_type("h100"@ + rest),
        is_nvidia_type("h200"@ + rest),
        is_nvidia_type("a100"@ + rest),
        is_nvidia_type("b200"@ + rest),
        is_nvidia_type("v100"@ + rest),
        is_nvidia_type("l40"@ + rest),
        is_nvidia_type("rtx"@ + rest),
        is_nvidia_type("nvidia"@),
        !is_nvidia_type("mi"@ + rest),
        vendor_resource(true) == "nvidia.com/gpu"@,
        vendor_resource(false) == "amd.com/gpu"@,
        !asks_for_nvidia(None),
{
    reveal_strlit("h100");
    reveal_strlit("h200");
    reveal_strlit("a100");
    reveal_strlit("a10g");
    reveal_strlit("a30");
    reveal_strlit("v100");
    reveal_strlit("t4");
    reveal_strlit("l4");
    reveal_strlit("l40");
    reveal_strlit("b100");
    reveal_strlit("b200");
    reveal_strlit("gb200");
    reveal_strlit("rtx");
    reveal_strlit("nvidia");
    reveal_strlit("mi");
    assert(("h100"@ + rest).take(4) =~= "h100"@);
    assert(("h200"@ + rest).take(4) =~= "h200"@);
    assert(("a100"@ + rest).take(4) =~= "a100"@);
    assert(("b200"@ + rest).take(4) =~= "b200"@);
    assert(("v100"@ + rest).take(4) =~= "v100"@);
    assert(("l40"@ + rest).take(3) =~= "l40"@);
    assert(("rtx"@ + rest).take(3) =~= "rtx"@);
    let other = "mi"@ + rest;
    assert(other[0] == 'm');
    assert forall|p: Seq<char>| p.len() > 0 && p[0] != 'm' implies !#[trigger] starts_with_text(
        other,
        p,
    ) by {
        if starts_with_text(other, p) {
            assert(other.take(p.len() as int)[0] == p[0]);
        }
    }
}

/// A request for GPUs names their kind and their number, and reads back as them.
pub proof fn law_gpu_request_reads_back(count: u32, kind: Seq<char>)
    requires
        kind.len() > 0,
        !kind.contains(':'),
    ensures
        crate::text::split_on(gres_text(count, Some(kind)), ':') == seq![
            "gpu"@,
            kind,
            decimal(count as nat),
        ],
        crate::text::split_on(gres_text(count, None), ':') == seq![
            "gpu"@,
            "any"@,
            decimal(count as nat),
        ],
{
    lemma_request(count, kind);
    reveal_strlit("any");
    assert(!"any"@.contains(':'));
    lemma_request(count, "any"@);
}

proof fn lemma_request(count: u32, kind: Seq<char>)
    requires
        !kind.contains(':'),
    ensures
        crate::text::split_on("gpu:"@ + kind + ":"@ + decimal(count as nat), ':') == seq![
            "gpu"@,
            kind,
            decimal(count as nat),
        ],
{
    reveal_strlit("gpu:");
    reveal_strlit("gpu");
    reveal_strlit(":");
    let number = decimal(count as nat);
    crate::text::lemma_decimal_digits(count as nat);
    if number.contains(':') {
        let j = choose|j: int| 0 <= j < number.len() && number[j] == ':';
        assert(crate::text::is_digit(number[j]));
    }
    assert(!"gpu"@.contains(':'));
    let parts = seq!["gpu"@, kind, number];
    crate::text::law_joined_reads_back(parts, ':');
    let two = seq!["gpu"@, kind];
    assert(parts.drop_last() =~= two);
    assert(two.drop_last() =~= seq!["gpu"@]);
    assert(crate::text::joined(seq!["gpu"@], seq![':']) == "gpu"@);
    assert(crate::text::joined(two, seq![':']) =~= "gpu"@ + seq![':'] + kind);
    assert(":"@ =~= seq![':']);
    assert("gpu:"@ =~= "gpu"@ + seq![':']);
    assert(crate::text::joined(parts, seq![':']) =~= "gpu:"@ + kind + ":"@ + number);
}

} // verus!
