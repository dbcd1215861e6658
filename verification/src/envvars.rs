//! Environment variables of a container, in a reproducible order.

use vstd::prelude::*;
use crate::k8s::{EnvVar, EnvVarView, SecretKeyRef, SecretKeyRefView};
use crate::plain::Plain;
use crate::strmap::StrMap;
use crate::text::{char_is, chars_of, lemma_position_is, position, text_of};

verus! {

/// Whether `a` comes before `b` in the order of their characters, or is `b`.
pub open spec fn text_le(a: Seq<char>, b: Seq<char>) -> bool
    decreases a.len(),
{
    if a.len() == 0 {
        true
    } else if b.len() == 0 {
        false
    } else if a[0] != b[0] {
        a[0] < b[0]
    } else {
        text_le(a.skip(1), b.skip(1))
    }
}

/// Any two texts are in order one way or the other.
pub proof fn lemma_text_total(a: Seq<char>, b: Seq<char>)
    ensures
        text_le(a, b) || text_le(b, a),
    decreases a.len(),
{
    if a.len() > 0 && b.len() > 0 {
        lemma_text_total(a.skip(1), b.skip(1));
    }
}

/// Only a text itself is in order with it both ways.
pub proof fn lemma_text_antisymmetric(a: Seq<char>, b: Seq<char>)
    requires
        text_le(a, b),
        text_le(b, a),
    ensures
        a == b,
    decreases a.len(),
{
    if a.len() > 0 && b.len() > 0 {
        lemma_text_antisymmetric(a.skip(1), b.skip(1));
        assert(a =~= seq![a[0]] + a.skip(1));
        assert(b =~= seq![b[0]] + b.skip(1));
    } else {
        assert(a =~= b);
    }
}

/// The order of texts is transitive.
pub proof fn lemma_text_transitive(a: Seq<char>, b: Seq<char>, c: Seq<char>)
    requires
        text_le(a, b),
        text_le(b, c),
    ensures
        text_le(a, c),
    decreases a.len(),
{
    if a.len() > 0 && b.len() > 0 && c.len() > 0 && a[0] == b[0] && b[0] == c[0] {
        lemma_text_transitive(a.skip(1), b.skip(1), c.skip(1));
    }
}

/// Whether `a` comes before `b`, or is `b`.
pub fn is_text_le(a: &str, b: &str) -> (yes: bool)
    ensures
        yes == text_le(a@, b@),
{
    let x: Vec<char> = chars_of(a);
    let y: Vec<char> = chars_of(b);
    let mut i: usize = 0;
    proof {
        assert(a@.skip(0) =~= a@);
        assert(b@.skip(0) =~= b@);
    }
    while i < x.len() && i < y.len() && x[i] == y[i]
        invariant
            i <= x@.len(),
            i <= y@.len(),
            x@ == a@,
            y@ == b@,
            text_le(a@, b@) == text_le(a@.skip(i as int), b@.skip(i as int)),
        decreases x@.len() - i,
    {
        proof {
            assert(a@.skip(i as int).skip(1) =~= a@.skip(i + 1));
            assert(b@.skip(i as int).skip(1) =~= b@.skip(i + 1));
        }
        i = i + 1;
    }
    if i == x.len() {
        true
    } else if i == y.len() {
        false
    } else {
        x[i] < y[i]
    }
}

/// Whether a variable has this name.
pub open spec fn has_name(name: Seq<char>) -> spec_fn(EnvVarView) -> bool {
    |v: EnvVarView| v.name == name
}

/// The variables with this name, in order.
pub open spec fn named(vars: Seq<EnvVarView>, name: Seq<char>) -> Seq<EnvVarView> {
    vars.filter(has_name(name))
}

/// Whether the variables are ordered by name.
pub open spec fn ordered_by_name(vars: Seq<EnvVarView>) -> bool {
    forall|i: int, j: int|
        0 <= i < j < vars.len() ==> text_le((#[trigger] vars[i]).name, (#[trigger] vars[j]).name)
}

/// `named` over a concatenation.
pub proof fn lemma_named_concat(a: Seq<EnvVarView>, b: Seq<EnvVarView>, name: Seq<char>)
    ensures
        named(a + b, name) == named(a, name) + named(b, name),
{
    Seq::filter_distributes_over_add(a, b, has_name(name));
}

/// `named` of one variable.
pub proof fn lemma_named_one(v: EnvVarView, name: Seq<char>)
    ensures
        named(seq![v], name) == if v.name == name {
            seq![v]
        } else {
            Seq::<EnvVarView>::empty()
        },
        named(Seq::<EnvVarView>::empty(), name) == Seq::<EnvVarView>::empty(),
{
    reveal(Seq::filter);
    let one = seq![v];
    assert(one.drop_last() =~= Seq::<EnvVarView>::empty());
    assert(Seq::<EnvVarView>::empty().filter(has_name(name)) =~= Seq::<EnvVarView>::empty());
    assert(one.filter(has_name(name)) =~= if v.name == name {
        seq![v]
    } else {
        Seq::<EnvVarView>::empty()
    });
}

/// No variable has the name where none of them does.
pub proof fn lemma_named_none(vars: Seq<EnvVarView>, name: Seq<char>)
    requires
        forall|i: int| 0 <= i < vars.len() ==> (#[trigger] vars[i]).name != name,
    ensures
        named(vars, name) == Seq::<EnvVarView>::empty(),
    decreases vars.len(),
{
    reveal(Seq::filter);
    if vars.len() > 0 {
        assert(vars[vars.len() - 1].name != name);
        assert forall|i: int| 0 <= i < vars.drop_last().len() implies (
        #[trigger] vars.drop_last()[i]).name != name by {
            assert(vars[i].name != name);
        }
        lemma_named_none(vars.drop_last(), name);
    }
    assert(named(vars, name) =~= Seq::<EnvVarView>::empty());
}

/// Where a variable has the name, `named` is not empty; and what `named` holds
/// is in the list.
proof fn lemma_named_has(vars: Seq<EnvVarView>, name: Seq<char>)
    ensures
        named(vars, name).len() > 0 <==> exists|i: int|
            0 <= i < vars.len() && (#[trigger] vars[i]).name == name,
{
    if exists|i: int| 0 <= i < vars.len() && (#[trigger] vars[i]).name == name {
        let i = choose|i: int| 0 <= i < vars.len() && (#[trigger] vars[i]).name == name;
        vars.lemma_filter_contains(has_name(name), i);
        assert(named(vars, name).contains(vars[i]));
    } else {
        lemma_named_none(vars, name);
    }
}

/// Variables with the names and values of a map have, for each name, the one
/// variable that the map holds.
pub open spec fn map_named(m: Map<Seq<char>, Seq<char>>, name: Seq<char>) -> Seq<EnvVarView> {
    if m.contains_key(name) {
        seq![plain_var(name, m[name])]
    } else {
        Seq::empty()
    }
}

/// A variable with a plain value.
pub open spec fn plain_var(name: Seq<char>, value: Seq<char>) -> EnvVarView {
    EnvVarView { name, value: Some(value), secret_key_ref: None, other: Seq::empty() }
}

/// A variable with a plain value.
pub fn plain_env(name: &str, value: &str) -> (out: EnvVar)
    ensures
        out@ == plain_var(name@, value@),
{
    EnvVar {
        name: name.to_owned(),
        value: Some(value.to_owned()),
        secret_key_ref: None,
        other: String::new(),
    }
}

/// The variable that takes its value from `secret/key`; none where the
/// reference has no slash.
pub open spec fn secret_var(name: Seq<char>, reference: Seq<char>) -> Option<EnvVarView> {
    let slash = position(reference, char_is('/')) as int;
    if slash < reference.len() {
        Some(
            EnvVarView {
                name,
                value: None,
                secret_key_ref: Some(
                    SecretKeyRefView {
                        name: reference.take(slash),
                        key: reference.skip(slash + 1),
                        optional: Some(true),
                    },
                ),
                other: Seq::empty(),
            },
        )
    } else {
        None
    }
}

/// The variable with this name that a map of secret references gives.
pub open spec fn secret_named(m: Map<Seq<char>, Seq<char>>, name: Seq<char>) -> Seq<EnvVarView> {
    if m.contains_key(name) {
        match secret_var(name, m[name]) {
            Some(v) => seq![v],
            None => Seq::empty(),
        }
    } else {
        Seq::empty()
    }
}

fn secret_env(name: &str, reference: &str) -> (out: Option<EnvVar>)
    ensures
        out.deep_view() == secret_var(name@, reference@),
{
    let chars: Vec<char> = chars_of(reference);
    let mut slash: usize = 0;
    while slash < chars.len() && chars[slash] != '/'
        invariant
            slash <= chars@.len(),
            forall|j: int| 0 <= j < slash ==> #[trigger] chars@[j] != '/',
        decreases chars@.len() - slash,
    {
        slash = slash + 1;
    }
    proof {
        lemma_position_is(reference@, char_is('/'), slash as int);
    }
    if slash < chars.len() {
        proof {
            assert(reference@.take(slash as int) =~= chars@.subrange(0, slash as int));
            assert(reference@.skip(slash + 1) =~= chars@.subrange(slash + 1, chars@.len() as int));
        }
        Some(
            EnvVar {
                name: name.to_owned(),
                value: None,
                secret_key_ref: Some(
                    SecretKeyRef {
                        name: text_of(&chars, 0, slash),
                        key: text_of(&chars, slash + 1, chars.len()),
                        optional: Some(true),
                    },
                ),
                other: String::new(),
            },
        )
    } else {
        None
    }
}

/// Appends a variable.
pub fn append_var(vars: &mut Vec<EnvVar>, var: EnvVar)
    ensures
        final(vars).deep_view() == old(vars).deep_view().push(var@),
{
    let ghost before = vars.deep_view();
    vars.push(var);
    proof {
        assert(vars.deep_view() =~= before.push(var@));
    }
}

/// Appends the variables of a map.
pub fn append_map(vars: &mut Vec<EnvVar>, m: &StrMap)
    ensures
        forall|name: Seq<char>| #[trigger]
            named(final(vars).deep_view(), name) == named(old(vars).deep_view(), name) + map_named(
                m@,
                name,
            ),
{
    let ghost before = vars.deep_view();
    let n: usize = m.len();
    let ghost keys = m.keys_in_order();
    let mut i: usize = 0;
    proof {
        assert forall|name: Seq<char>| #[trigger] named(vars.deep_view(), name) == named(before, name)
            + upto_named(m@, keys, 0, name) by {
            assert(named(before, name) + Seq::<EnvVarView>::empty() =~= named(before, name));
        }
    }
    while i < n
        invariant
            i <= n,
            n == keys.len(),
            keys == m.keys_in_order(),
            keys.no_duplicates(),
            forall|name: Seq<char>| #[trigger] m@.contains_key(name) <==> keys.contains(name),
            forall|name: Seq<char>| #[trigger]
                named(vars.deep_view(), name) == named(before, name) + upto_named(
                    m@,
                    keys,
                    i as int,
                    name,
                ),
        decreases n - i,
    {
        let (key, value) = m.entry(i);
        let ghost mid = vars.deep_view();
        let var = plain_env(key.as_str(), value.as_str());
        append_var(vars, var);
        proof {
            assert(vars.deep_view() =~= mid + seq![var@]);
            assert forall|name: Seq<char>| #[trigger]
                named(vars.deep_view(), name) == named(before, name) + upto_named(
                    m@,
                    keys,
                    i + 1,
                    name,
                ) by {
                lemma_named_concat(mid, seq![var@], name);
                lemma_named_one(var@, name);
                assert(named(mid, name) == named(before, name) + upto_named(m@, keys, i as int, name));
                lemma_upto(m@, keys, i as int, name);
                assert(named(before, name) + upto_named(m@, keys, i as int, name) + named(
                    seq![var@],
                    name,
                ) =~= named(before, name) + upto_named(m@, keys, i + 1, name));
            }
        }
        i = i + 1;
    }
    proof {
        assert forall|name: Seq<char>| #[trigger] named(vars.deep_view(), name) == named(before, name)
            + map_named(m@, name) by {
            assert(keys.take(i as int) =~= keys);
            assert(m@.contains_key(name) <==> keys.contains(name));
        }
    }
}

/// What the first `i` keys of a map give for a name.
spec fn upto_named(
    m: Map<Seq<char>, Seq<char>>,
    keys: Seq<Seq<char>>,
    i: int,
    name: Seq<char>,
) -> Seq<EnvVarView> {
    if keys.take(i).contains(name) {
        seq![plain_var(name, m[name])]
    } else {
        Seq::empty()
    }
}

proof fn lemma_upto(
    m: Map<Seq<char>, Seq<char>>,
    keys: Seq<Seq<char>>,
    i: int,
    name: Seq<char>,
)
    requires
        0 <= i < keys.len(),
        keys.no_duplicates(),
    ensures
        keys[i] == name ==> !keys.take(i).contains(name) && keys.take(i + 1).contains(name),
        keys[i] != name ==> (keys.take(i + 1).contains(name) <==> keys.take(i).contains(name)),
{
    let a = keys.take(i);
    let b = keys.take(i + 1);
    assert(b =~= a.push(keys[i]));
    assert(b[i] == keys[i]);
    if a.contains(name) {
        let j = choose|j: int| 0 <= j < a.len() && a[j] == name;
        assert(b[j] == name);
        assert(keys[j] == name);
    }
    if b.contains(name) && keys[i] != name {
        let j = choose|j: int| 0 <= j < b.len() && b[j] == name;
        assert(a[j] == name);
    }
}

/// What the first `i` keys of a map of secret references give for a name.
spec fn upto_secret(
    m: Map<Seq<char>, Seq<char>>,
    keys: Seq<Seq<char>>,
    i: int,
    name: Seq<char>,
) -> Seq<EnvVarView> {
    if keys.take(i).contains(name) {
        match secret_var(name, m[name]) {
            Some(v) => seq![v],
            None => Seq::empty(),
        }
    } else {
        Seq::empty()
    }
}

/// Appends the variables that a map of secret references gives.
pub fn append_secrets(vars: &mut Vec<EnvVar>, m: &StrMap)
    ensures
        forall|name: Seq<char>| #[trigger]
            named(final(vars).deep_view(), name) == named(old(vars).deep_view(), name)
                + secret_named(m@, name),
{
    let ghost before = vars.deep_view();
    let n: usize = m.len();
    let ghost keys = m.keys_in_order();
    let mut i: usize = 0;
    proof {
        assert forall|name: Seq<char>| #[trigger] named(vars.deep_view(), name) == named(before, name)
            + upto_secret(m@, keys, 0, name) by {
            assert(named(before, name) + Seq::<EnvVarView>::empty() =~= named(before, name));
        }
    }
    while i < n
        invariant
            i <= n,
            n == keys.len(),
            keys == m.keys_in_order(),
            keys.no_duplicates(),
            forall|name: Seq<char>| #[trigger] m@.contains_key(name) <==> keys.contains(name),
            forall|name: Seq<char>| #[trigger]
                named(vars.deep_view(), name) == named(before, name) + upto_secret(
                    m@,
                    keys,
                    i as int,
                    name,
                ),
        decreases n - i,
    {
        let (key, value) = m.entry(i);
        let ghost mid = vars.deep_view();
        let ghost added = match secret_var(key@, value@) {
            Some(v) => seq![v],
            None => Seq::<EnvVarView>::empty(),
        };
        match secret_env(key.as_str(), value.as_str()) {
            Some(var) => {
                append_var(vars, var);
                proof {
                    assert(vars.deep_view() =~= mid + added);
                }
            },
            None => {
                proof {
                    assert(vars.deep_view() =~= mid + added);
                }
            },
        }
        proof {
            assert forall|name: Seq<char>| #[trigger]
                named(vars.deep_view(), name) == named(before, name) + upto_secret(
                    m@,
                    keys,
                    i + 1,
                    name,
                ) by {
                lemma_named_concat(mid, added, name);
                if added.len() > 0 {
                    lemma_named_one(added[0], name);
                    assert(added =~= seq![added[0]]);
                } else {
                    lemma_named_none(added, name);
                }
                assert(named(mid, name) == named(before, name) + upto_secret(
                    m@,
                    keys,
                    i as int,
                    name,
                ));
                lemma_upto(m@, keys, i as int, name);
                assert(named(before, name) + upto_secret(m@, keys, i as int, name) + named(
                    added,
                    name,
                ) =~= named(before, name) + upto_secret(m@, keys, i + 1, name));
            }
        }
        i = i + 1;
    }
    proof {
        assert forall|name: Seq<char>| #[trigger] named(vars.deep_view(), name) == named(before, name)
            + secret_named(m@, name) by {
            assert(keys.take(i as int) =~= keys);
            assert(m@.contains_key(name) <==> keys.contains(name));
        }
    }
}

/// Orders variables by name. Variables with the same name keep their order.
pub fn sort_by_name(vars: Vec<EnvVar>) -> (out: Vec<EnvVar>)
    ensures
        ordered_by_name(out.deep_view()),
        forall|name: Seq<char>| #[trigger]
            named(out.deep_view(), name) == named(vars.deep_view(), name),
{
    let ghost all = vars.deep_view();
    let mut out: Vec<EnvVar> = Vec::new();
    let mut i: usize = 0;
    proof {
        assert(all.take(0) =~= Seq::<EnvVarView>::empty());
        assert(out.deep_view() =~= Seq::<EnvVarView>::empty());
    }
    while i < vars.len()
        invariant
            i <= vars@.len(),
            all == vars.deep_view(),
            ordered_by_name(out.deep_view()),
            forall|name: Seq<char>| #[trigger]
                named(out.deep_view(), name) == named(all.take(i as int), name),
        decreases vars@.len() - i,
    {
        let ghost before = out.deep_view();
        let ghost x = vars@[i as int]@;
        let mut at: usize = out.len();
        while at > 0 && !is_text_le(out[at - 1].name.as_str(), vars[i].name.as_str())
            invariant
                at <= out@.len(),
                i < vars@.len(),
                before == out.deep_view(),
                x == vars@[i as int]@,
                forall|k: int|
                    at <= k < before.len() ==> !text_le((#[trigger] before[k]).name, x.name),
            decreases at,
        {
            proof {
                assert(before[at - 1] == out@[at - 1]@);
            }
            at = at - 1;
        }
        proof {
            if at > 0 {
                assert(before[at - 1] == out@[at - 1]@);
            }
            lemma_inserted(before, at as int, x);
        }
        out.insert(at, vars[i].copy_of());
        proof {
            let after = before.insert(at as int, x);
            assert(out.deep_view() =~= after);
            assert forall|name: Seq<char>| #[trigger]
                named(out.deep_view(), name) == named(all.take(i + 1), name) by {
                assert(all.take(i + 1) =~= all.take(i as int) + seq![x]);
                lemma_named_concat(all.take(i as int), seq![x], name);
                assert(named(before, name) == named(all.take(i as int), name));
                assert(named(after, name) == named(before, name) + named(seq![x], name));
            }
        }
        i = i + 1;
    }
    proof {
        assert(all.take(i as int) =~= all);
    }
    out
}

/// Inserting a variable after the last one that may stand before it keeps the
/// order, and puts it behind those with its name.
proof fn lemma_inserted(before: Seq<EnvVarView>, at: int, x: EnvVarView)
    requires
        ordered_by_name(before),
        0 <= at <= before.len(),
        at > 0 ==> text_le(before[at - 1].name, x.name),
        forall|k: int| at <= k < before.len() ==> !text_le((#[trigger] before[k]).name, x.name),
    ensures
        ordered_by_name(before.insert(at, x)),
        forall|name: Seq<char>| #[trigger]
            named(before.insert(at, x), name) == named(before, name) + named(seq![x], name),
{
    let after = before.insert(at, x);
    assert forall|i: int, j: int| 0 <= i < j < after.len() implies text_le(
        (#[trigger] after[i]).name,
        (#[trigger] after[j]).name,
    ) by {
        if i == at {
            lemma_text_total(x.name, before[j - 1].name);
        } else if j == at {
            if i < at - 1 {
                lemma_text_transitive(before[i].name, before[at - 1].name, x.name);
            }
        } else {
            let p = if i < at {
                i
            } else {
                i - 1
            };
            let q = if j < at {
                j
            } else {
                j - 1
            };
            assert(text_le(before[p].name, before[q].name));
        }
    }
    let head = before.take(at);
    let tail = before.skip(at);
    assert(before =~= head + tail);
    assert(after =~= head + (seq![x] + tail));
    assert forall|name: Seq<char>| #[trigger] named(after, name) == named(before, name) + named(
        seq![x],
        name,
    ) by {
        lemma_named_concat(head, tail, name);
        lemma_named_concat(head, seq![x] + tail, name);
        lemma_named_concat(seq![x], tail, name);
        lemma_named_one(x, name);
        if x.name == name {
            assert forall|k: int| 0 <= k < tail.len() implies (#[trigger] tail[k]).name != name by {
                assert(before[k + at].name != x.name) by {
                    if before[k + at].name == x.name {
                        lemma_text_total(x.name, x.name);
                    }
                }
            }
            lemma_named_none(tail, name);
            assert(named(head, name) + (named(seq![x], name) + named(tail, name)) =~= named(
                head,
                name,
            ) + named(tail, name) + named(seq![x], name));
        } else {
            assert(named(head, name) + (named(seq![x], name) + named(tail, name)) =~= named(
                head,
                name,
            ) + named(tail, name) + named(seq![x], name));
        }
    }
}

/// Variables that are ordered by name, and have the same variables in the same
/// order under each name, are the same list: the order in which the maps they
/// came from were walked leaves no trace.
pub proof fn law_order_is_determined(a: Seq<EnvVarView>, b: Seq<EnvVarView>)
    requires
        ordered_by_name(a),
        ordered_by_name(b),
        forall|name: Seq<char>| #[trigger] named(a, name) == named(b, name),
    ensures
        a == b,
    decreases a.len(),
{
    if a.len() == 0 {
        if b.len() > 0 {
            let name = b[0].name;
            lemma_named_has(a, name);
            lemma_named_has(b, name);
            assert(named(a, name) == named(b, name));
        }
        assert(a =~= b);
    } else {
        let n = a[0].name;
        lemma_named_has(a, n);
        lemma_named_has(b, n);
        assert(named(a, n) == named(b, n));
        let j = choose|j: int| 0 <= j < b.len() && (#[trigger] b[j]).name == n;
        let m = b[0].name;
        lemma_named_has(a, m);
        lemma_named_has(b, m);
        assert(named(a, m) == named(b, m));
        let i = choose|i: int| 0 <= i < a.len() && (#[trigger] a[i]).name == m;
        lemma_text_total(n, n);
        if j > 0 {
            assert(text_le(b[0].name, b[j].name));
        }
        if i > 0 {
            assert(text_le(a[0].name, a[i].name));
        }
        lemma_text_antisymmetric(n, m);
        let ta = a.skip(1);
        let tb = b.skip(1);
        assert(a =~= seq![a[0]] + ta);
        assert(b =~= seq![b[0]] + tb);
        lemma_named_concat(seq![a[0]], ta, n);
        lemma_named_concat(seq![b[0]], tb, n);
        lemma_named_one(a[0], n);
        lemma_named_one(b[0], n);
        assert(named(a, n)[0] == a[0]);
        assert(named(b, n)[0] == b[0]);
        assert forall|name: Seq<char>| #[trigger] named(ta, name) == named(tb, name) by {
            lemma_named_concat(seq![a[0]], ta, name);
            lemma_named_concat(seq![b[0]], tb, name);
            lemma_named_one(a[0], name);
            assert(named(a, name) == named(b, name));
            let h = named(seq![a[0]], name);
            assert((h + named(ta, name)).skip(h.len() as int) =~= named(ta, name));
            assert((h + named(tb, name)).skip(h.len() as int) =~= named(tb, name));
        }
        assert forall|p: int, q: int| 0 <= p < q < ta.len() implies text_le(
            (#[trigger] ta[p]).name,
            (#[trigger] ta[q]).name,
        ) by {
            assert(text_le(a[p + 1].name, a[q + 1].name));
        }
        assert forall|p: int, q: int| 0 <= p < q < tb.len() implies text_le(
            (#[trigger] tb[p]).name,
            (#[trigger] tb[q]).name,
        ) by {
            assert(text_le(b[p + 1].name, b[q + 1].name));
        }
        law_order_is_determined(ta, tb);
    }
}

/// A variable that is taken from a secret names the secret and the key that stand
/// before and after the first slash; a reference without one is no variable.
pub proof fn law_secret_reference_is_read(name: Seq<char>, secret: Seq<char>, key: Seq<char>)
    requires
        !secret.contains('/'),
    ensures
        secret_var(name, secret + seq!['/'] + key) matches Some(var) && {
            &&& var.name == name
            &&& var.value is None
            &&& var.secret_key_ref matches Some(reference) && reference.name == secret
                && reference.key == key && reference.optional == Some(true)
        },
        secret_var(name, secret) is None,
{
    let text = secret + seq!['/'] + key;
    let slash = char_is('/');
    let n = secret.len() as int;
    assert forall|j: int| 0 <= j < n implies !slash(#[trigger] text[j]) by {
        assert(text[j] == secret[j]);
    }
    assert(text[n] == '/');
    lemma_position_is(text, slash, n);
    assert(text.take(n) =~= secret);
    assert(text.skip(n + 1) =~= key);
    assert forall|j: int| 0 <= j < n implies !slash(#[trigger] secret[j]) by {}
    lemma_position_is(secret, slash, n);
}

/// The order of names is that of their first characters that differ, and a name
/// comes before those that go on after it.
pub proof fn law_names_are_ordered_by_their_characters(
    same: Seq<char>,
    a: char,
    b: char,
    rest: Seq<char>,
    other: Seq<char>,
)
    requires
        a < b,
    ensures
        text_le(same + seq![a] + rest, same + seq![b] + other),
        !text_le(same + seq![b] + other, same + seq![a] + rest),
        text_le(same, same + rest),
        rest.len() > 0 ==> !text_le(same + rest, same),
    decreases same.len(),
{
    if same.len() > 0 {
        let tail = same.skip(1);
        law_names_are_ordered_by_their_characters(tail, a, b, rest, other);
        let x = same + seq![a] + rest;
        let y = same + seq![b] + other;
        assert(x[0] == same[0] && y[0] == same[0]);
        assert(x.skip(1) =~= tail + seq![a] + rest);
        assert(y.skip(1) =~= tail + seq![b] + other);
        let z = same + rest;
        assert(z[0] == same[0]);
        assert(z.skip(1) =~= tail + rest);
    }
}

} // verus!
