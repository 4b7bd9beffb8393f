//! The rows of the detail popup: what it shows of a qube and of its
//! properties, and which of the rows can be edited.
use vstd::prelude::*;

use crate::admin::{QubeInfo, QubeProperties};
use crate::text::{
    decimal, lemma_text_le_refl, lemma_text_le_total, lemma_text_le_trans,
    push_decimal, push_str, str_eq, str_le, text_le,
};
use crate::textmap::TextMap;

verus! {

/// One row of the detail popup: the property it shows (empty for the rows
/// that describe the qube itself), its label, its value, and whether it can
/// be edited.
#[derive(Debug, Clone)]
pub struct DetailRow {
    pub key: String,
    pub label: String,
    pub value: String,
    pub editable: bool,
}

/// A row as plain values: key, label, value, editable.
pub open spec fn row_of(r: DetailRow) -> (Seq<char>, Seq<char>, Seq<char>, bool) {
    (r.key@, r.label@, r.value@, r.editable)
}

/// The rows `rows` as plain values.
pub open spec fn rows_model(rows: Seq<DetailRow>) -> Seq<(Seq<char>, Seq<char>, Seq<char>, bool)> {
    rows.map_values(|r: DetailRow| row_of(r))
}

/// The text of an optional text, `-` where there is none.
pub open spec fn or_dash(o: Option<String>) -> Seq<char> {
    match o {
        Some(s) => s@,
        None => "-"@,
    }
}

/// `true` or `false`.
pub open spec fn bool_text(b: bool) -> Seq<char> {
    if b {
        "true"@
    } else {
        "false"@
    }
}

/// An editable row for `key` labelled `label` where there is a value `v`;
/// no row where there is none.
pub open spec fn opt_row(key: Seq<char>, label: Seq<char>, v: Option<Seq<char>>) -> Seq<
    (Seq<char>, Seq<char>, Seq<char>, bool),
> {
    match v {
        Some(t) => seq![(key, label, t, true)],
        None => Seq::empty(),
    }
}

/// The decimal text of an optional number.
pub open spec fn num_text(o: Option<u64>) -> Option<Seq<char>> {
    match o {
        Some(n) => Some(decimal(n as nat)),
        None => None,
    }
}

/// The decimal text of an optional small number.
pub open spec fn small_num_text(o: Option<u32>) -> Option<Seq<char>> {
    match o {
        Some(n) => Some(decimal(n as nat)),
        None => None,
    }
}

/// The text of an optional yes/no value.
pub open spec fn flag_text(o: Option<bool>) -> Option<Seq<char>> {
    match o {
        Some(b) => Some(bool_text(b)),
        None => None,
    }
}

/// The text of an optional text.
pub open spec fn some_text(o: Option<String>) -> Option<Seq<char>> {
    match o {
        Some(s) => Some(s@),
        None => None,
    }
}

/// The rows that describe the qube itself: class and state (not editable),
/// then label, template and netvm (`-` where there is none).
pub open spec fn base_rows(q: QubeInfo) -> Seq<(Seq<char>, Seq<char>, Seq<char>, bool)> {
    seq![
        (""@, "Class"@, q.class.label(), false),
        (""@, "State"@, q.state.label(), false),
        ("label"@, "Label"@, q.label@, true),
        ("template"@, "Template"@, or_dash(q.template), true),
        ("netvm"@, "NetVM"@, or_dash(q.netvm), true),
    ]
}

/// The rows of the well-known numeric properties that `p` has: memory,
/// maximum memory, vCPUs.
pub open spec fn number_rows(p: QubeProperties) -> Seq<(Seq<char>, Seq<char>, Seq<char>, bool)> {
    opt_row("memory"@, "Memory (MiB)"@, num_text(p.memory)) + opt_row(
        "maxmem"@,
        "Max memory"@,
        num_text(p.maxmem),
    ) + opt_row("vcpus"@, "vCPUs"@, small_num_text(p.vcpus))
}

/// The rows of the other well-known properties that `p` has: autostart,
/// provides-network, kernel, default DispVM.
pub open spec fn other_rows(p: QubeProperties) -> Seq<(Seq<char>, Seq<char>, Seq<char>, bool)> {
    opt_row("autostart"@, "Autostart"@, flag_text(p.autostart)) + opt_row(
        "provides_network"@,
        "Provides network"@,
        flag_text(p.provides_network),
    ) + opt_row("kernel"@, "Kernel"@, some_text(p.kernel)) + opt_row(
        "default_dispvm"@,
        "Default DispVM"@,
        some_text(p.default_dispvm),
    )
}

/// The rows of the well-known properties that `p` has, in a fixed order.
pub open spec fn typed_rows(p: QubeProperties) -> Seq<(Seq<char>, Seq<char>, Seq<char>, bool)> {
    number_rows(p) + other_rows(p)
}

/// Whether a typed row shows the property `k`.
pub open spec fn typed_key(k: Seq<char>) -> bool {
    ||| k == "memory"@
    ||| k == "maxmem"@
    ||| k == "vcpus"@
    ||| k == "autostart"@
    ||| k == "provides_network"@
    ||| k == "kernel"@
    ||| k == "default_dispvm"@
}

/// `a` comes strictly before `b` in lexicographic order.
pub open spec fn text_lt(a: Seq<char>, b: Seq<char>) -> bool {
    text_le(a, b) && a != b
}

/// `rows` show, one editable row each, labelled by its name, every property
/// of `raw` that no typed row shows, in strictly increasing order of name.
pub open spec fn extra_rows_are(rows: Seq<DetailRow>, raw: Map<Seq<char>, String>) -> bool {
    &&& forall|i: int|
        0 <= i < rows.len() ==> {
            &&& (#[trigger] rows[i]).editable
            &&& rows[i].label@ == rows[i].key@
            &&& raw.dom().contains(rows[i].key@)
            &&& !typed_key(rows[i].key@)
            &&& rows[i].value@ == raw[rows[i].key@]@
        }
    &&& forall|i: int, j: int|
        0 <= i < j < rows.len() ==> text_lt((#[trigger] rows[i]).key@, (#[trigger] rows[j]).key@)
    &&& forall|k: Seq<char>|
        #[trigger] raw.dom().contains(k) && !typed_key(k) ==> exists|i: int|
            0 <= i < rows.len() && (#[trigger] rows[i]).key@ == k
}

/// Whether a typed row shows the property `k`.
fn is_typed_key(k: &str) -> (r: bool)
    ensures
        r == typed_key(k@),
{
    str_eq(k, "memory") || str_eq(k, "maxmem") || str_eq(k, "vcpus") || str_eq(k, "autostart")
        || str_eq(k, "provides_network") || str_eq(k, "kernel") || str_eq(k, "default_dispvm")
}

/// The texts of `ks`, as a set.
pub open spec fn key_set(ks: Seq<String>) -> Set<Seq<char>> {
    Set::new(|k: Seq<char>| exists|a: int| 0 <= a < ks.len() && (#[trigger] ks[a])@ == k)
}

/// The texts of `ks` are in strictly increasing order.
pub open spec fn strictly_sorted(ks: Seq<String>) -> bool {
    forall|a: int, b: int| 0 <= a < b < ks.len() ==> text_lt((#[trigger] ks[a])@, (#[trigger] ks[b])@)
}

/// The keys of the first `i` entries of `es` that no typed row shows.
pub open spec fn seen_keys(es: Seq<(String, String)>, i: int) -> Set<Seq<char>> {
    Set::new(
        |k: Seq<char>| exists|j: int| 0 <= j < i && (#[trigger] es[j]).0@ == k && !typed_key(k),
    )
}

/// Inserts `k`, which `ks` does not hold, into the strictly increasing `ks`
/// at its place.
fn insert_sorted(ks: &mut Vec<String>, k: String)
    requires
        strictly_sorted(old(ks)@),
        !key_set(old(ks)@).contains(k@),
    ensures
        strictly_sorted(final(ks)@),
        key_set(final(ks)@) == key_set(old(ks)@).insert(k@),
{
    let mut p: usize = 0;
    while p < ks.len() && str_le(ks[p].as_str(), k.as_str())
        invariant
            0 <= p <= ks@.len(),
            forall|a: int| 0 <= a < p ==> text_le((#[trigger] ks@[a])@, k@),
        decreases ks@.len() - p,
    {
        p += 1;
    }
    let ghost k0 = ks@;
    proof {
        assert forall|a: int| 0 <= a < k0.len() implies (#[trigger] k0[a])@ != k@ by {
            if k0[a]@ == k@ {
                assert(key_set(k0).contains(k@));
            }
        }
        if p < k0.len() {
            lemma_text_le_total(k0[p as int]@, k@);
        }
        lemma_text_le_refl(k@);
    }
    let ghost kv = k;
    ks.insert(p, k);
    proof {
        let k1 = ks@;
        assert(k1 == k0.insert(p as int, kv));
        assert forall|a: int, b: int| 0 <= a < b < k1.len() implies text_lt(
            (#[trigger] k1[a])@,
            (#[trigger] k1[b])@,
        ) by {
            if b < p {
                assert(k1[a] == k0[a] && k1[b] == k0[b]);
            } else if b == p {
                assert(k1[a] == k0[a]);
            } else if a == p {
                assert(k1[b] == k0[b - 1]);
                if b - 1 > p {
                    lemma_text_le_trans(kv@, k0[p as int]@, k0[b - 1]@);
                }
            } else if a < p {
                assert(k1[a] == k0[a] && k1[b] == k0[b - 1]);
            } else {
                assert(k1[a] == k0[a - 1] && k1[b] == k0[b - 1]);
            }
        }
        assert forall|x: Seq<char>| key_set(k1).contains(x) <==> key_set(k0).insert(kv@).contains(
            x,
        ) by {
            if key_set(k1).contains(x) {
                let a = choose|a: int| 0 <= a < k1.len() && (#[trigger] k1[a])@ == x;
                if a < p {
                    assert(k0[a] == k1[a]);
                } else if a > p {
                    assert(k0[a - 1] == k1[a]);
                }
            }
            if key_set(k0).contains(x) {
                let b = choose|b: int| 0 <= b < k0.len() && (#[trigger] k0[b])@ == x;
                if b < p {
                    assert(k1[b] == k0[b]);
                } else {
                    assert(k1[b + 1] == k0[b]);
                }
            }
            if x == kv@ {
                assert(k1[p as int] == kv);
            }
        }
        assert(key_set(k1) =~= key_set(k0).insert(kv@));
    }
}

/// The properties of `raw` that no typed row shows, in strictly increasing
/// order.
fn extra_keys(raw: &TextMap<String>) -> (ks: Vec<String>)
    ensures
        strictly_sorted(ks@),
        forall|k: Seq<char>|
            #[trigger] key_set(ks@).contains(k) <==> raw@.dom().contains(k) && !typed_key(k),
{
    let es = raw.entries();
    let mut ks: Vec<String> = Vec::new();
    let mut i: usize = 0;
    assert(key_set(ks@) =~= seen_keys(es@, 0));
    while i < es.len()
        invariant
            0 <= i <= es@.len(),
            forall|a: int, b: int|
                0 <= a < b < es@.len() ==> (#[trigger] es@[a]).0@ != (#[trigger] es@[b]).0@,
            strictly_sorted(ks@),
            key_set(ks@) == seen_keys(es@, i as int),
        decreases es@.len() - i,
    {
        let k = &es[i].0;
        let ghost kv = *k;
        if !is_typed_key(k.as_str()) {
            proof {
                if key_set(ks@).contains(kv@) {
                    let j = choose|j: int|
                        0 <= j < i && (#[trigger] es@[j]).0@ == kv@ && !typed_key(kv@);
                    assert(es@[j].0@ != es@[i as int].0@);
                }
            }
            let ghost s0 = key_set(ks@);
            insert_sorted(&mut ks, k.clone());
            proof {
                assert forall|x: Seq<char>| seen_keys(es@, i + 1).contains(x) <==> s0.insert(
                    kv@,
                ).contains(x) by {
                    if seen_keys(es@, i + 1).contains(x) {
                        let j = choose|j: int|
                            0 <= j < i + 1 && (#[trigger] es@[j]).0@ == x && !typed_key(x);
                        if j < i {
                            assert(seen_keys(es@, i as int).contains(x));
                        }
                    }
                    if s0.contains(x) {
                        let j = choose|j: int|
                            0 <= j < i && (#[trigger] es@[j]).0@ == x && !typed_key(x);
                        assert(seen_keys(es@, i + 1).contains(x));
                    }
                    if x == kv@ {
                        assert(es@[i as int].0@ == x);
                    }
                }
                assert(seen_keys(es@, i + 1) =~= s0.insert(kv@));
            }
        } else {
            proof {
                assert forall|x: Seq<char>| seen_keys(es@, i + 1).contains(x) <==> seen_keys(
                    es@,
                    i as int,
                ).contains(x) by {
                    if seen_keys(es@, i + 1).contains(x) {
                        let j = choose|j: int|
                            0 <= j < i + 1 && (#[trigger] es@[j]).0@ == x && !typed_key(x);
                        assert(j != i);
                    }
                }
                assert(seen_keys(es@, i + 1) =~= seen_keys(es@, i as int));
            }
        }
        i += 1;
    }
    proof {
        assert forall|k: Seq<char>| #[trigger] key_set(ks@).contains(k) <==> raw@.dom().contains(k)
            && !typed_key(k) by {
            if key_set(ks@).contains(k) {
                let j = choose|j: int|
                    0 <= j < es@.len() && (#[trigger] es@[j]).0@ == k && !typed_key(k);
            }
            if raw@.dom().contains(k) && !typed_key(k) {
                let j = choose|j: int| 0 <= j < es@.len() && (#[trigger] es@[j]).0@ == k;
                assert(seen_keys(es@, es@.len() as int).contains(k));
            }
        }
    }
    ks
}

/// The decimal text of `n`.
fn number_text(n: u64) -> (s: String)
    ensures
        s@ == decimal(n as nat),
{
    let mut s = String::new();
    push_decimal(&mut s, n);
    assert(s@ =~= decimal(n as nat));
    s
}

/// `true` or `false`.
fn bool_string(b: bool) -> (s: String)
    ensures
        s@ == bool_text(b),
{
    if b {
        "true".to_owned()
    } else {
        "false".to_owned()
    }
}

/// Appends an editable row for `key` labelled `label` where there is a
/// value `v`.
fn add_opt(rows: &mut Vec<DetailRow>, key: &str, label: &str, v: Option<String>)
    ensures
        rows_model(final(rows)@) == rows_model(old(rows)@) + opt_row(key@, label@, some_text(v)),
{
    let ghost r0 = rows@;
    match v {
        Some(value) => {
            rows.push(DetailRow { key: key.to_owned(), label: label.to_owned(), value, editable: true });
            assert(rows_model(rows@) =~= rows_model(r0) + opt_row(key@, label@, some_text(v)));
        },
        None => {
            assert(rows_model(rows@) =~= rows_model(r0) + opt_row(key@, label@, some_text(v)));
        },
    }
}

/// The rows that describe the qube `q` itself.
fn own_rows(q: &QubeInfo) -> (rows: Vec<DetailRow>)
    ensures
        rows_model(rows@) == base_rows(*q),
{
    let mut rows: Vec<DetailRow> = Vec::new();
    rows.push(DetailRow {
        key: "".to_owned(),
        label: "Class".to_owned(),
        value: q.class.short_label().to_owned(),
        editable: false,
    });
    rows.push(DetailRow {
        key: "".to_owned(),
        label: "State".to_owned(),
        value: q.state.short_label().to_owned(),
        editable: false,
    });
    rows.push(DetailRow {
        key: "label".to_owned(),
        label: "Label".to_owned(),
        value: q.label.clone(),
        editable: true,
    });
    let template = match &q.template {
        Some(t) => t.clone(),
        None => "-".to_owned(),
    };
    rows.push(DetailRow {
        key: "template".to_owned(),
        label: "Template".to_owned(),
        value: template,
        editable: true,
    });
    let netvm = match &q.netvm {
        Some(n) => n.clone(),
        None => "-".to_owned(),
    };
    rows.push(DetailRow {
        key: "netvm".to_owned(),
        label: "NetVM".to_owned(),
        value: netvm,
        editable: true,
    });
    assert(rows_model(rows@) =~= base_rows(*q));
    rows
}

/// Appends the rows of the well-known numeric properties that `p` has.
fn add_numbers(rows: &mut Vec<DetailRow>, p: &QubeProperties)
    ensures
        rows_model(final(rows)@) == rows_model(old(rows)@) + number_rows(*p),
{
    let ghost m0 = rows_model(rows@);
    let ghost t1 = opt_row("memory"@, "Memory (MiB)"@, num_text(p.memory));
    let ghost t2 = opt_row("maxmem"@, "Max memory"@, num_text(p.maxmem));
    let ghost t3 = opt_row("vcpus"@, "vCPUs"@, small_num_text(p.vcpus));
    let v1 = match p.memory {
        Some(v) => Some(number_text(v)),
        None => None,
    };
    add_opt(rows, "memory", "Memory (MiB)", v1);
    let v2 = match p.maxmem {
        Some(v) => Some(number_text(v)),
        None => None,
    };
    add_opt(rows, "maxmem", "Max memory", v2);
    let v3 = match p.vcpus {
        Some(v) => Some(number_text(v as u64)),
        None => None,
    };
    add_opt(rows, "vcpus", "vCPUs", v3);
    assert(rows_model(rows@) =~= m0 + (t1 + t2 + t3));
}

/// Appends the rows of the other well-known properties that `p` has.
fn add_others(rows: &mut Vec<DetailRow>, p: &QubeProperties)
    ensures
        rows_model(final(rows)@) == rows_model(old(rows)@) + other_rows(*p),
{
    let ghost m0 = rows_model(rows@);
    let ghost t4 = opt_row("autostart"@, "Autostart"@, flag_text(p.autostart));
    let ghost t5 = opt_row("provides_network"@, "Provides network"@, flag_text(p.provides_network));
    let ghost t6 = opt_row("kernel"@, "Kernel"@, some_text(p.kernel));
    let ghost t7 = opt_row("default_dispvm"@, "Default DispVM"@, some_text(p.default_dispvm));
    let v4 = match p.autostart {
        Some(v) => Some(bool_string(v)),
        None => None,
    };
    add_opt(rows, "autostart", "Autostart", v4);
    let v5 = match p.provides_network {
        Some(v) => Some(bool_string(v)),
        None => None,
    };
    add_opt(rows, "provides_network", "Provides network", v5);
    let v6 = match &p.kernel {
        Some(v) => Some(v.clone()),
        None => None,
    };
    add_opt(rows, "kernel", "Kernel", v6);
    let v7 = match &p.default_dispvm {
        Some(v) => Some(v.clone()),
        None => None,
    };
    add_opt(rows, "default_dispvm", "Default DispVM", v7);
    assert(rows_model(rows@) =~= m0 + (t4 + t5 + t6 + t7));
}

/// Appends the rows of the well-known properties that `p` has.
fn add_typed(rows: &mut Vec<DetailRow>, p: &QubeProperties)
    ensures
        rows_model(final(rows)@) == rows_model(old(rows)@) + typed_rows(*p),
{
    let ghost m0 = rows_model(rows@);
    add_numbers(rows, p);
    add_others(rows, p);
    assert(rows_model(rows@) =~= m0 + typed_rows(*p));
}

/// Appends one editable row for each property of `raw` that no typed row
/// shows, labelled by its name, in order of name.
fn add_extras(rows: &mut Vec<DetailRow>, raw: &TextMap<String>)
    ensures
        final(rows)@.len() >= old(rows)@.len(),
        final(rows)@.take(old(rows)@.len() as int) == old(rows)@,
        extra_rows_are(final(rows)@.skip(old(rows)@.len() as int), raw@),
{
    let n = rows.len();
    let ghost r0 = rows@;
    let ks = extra_keys(raw);
    let mut j: usize = 0;
    while j < ks.len()
        invariant
            n == r0.len(),
            rows@.len() == n + j,
            0 <= j <= ks@.len(),
            rows@.take(n as int) == r0,
            strictly_sorted(ks@),
            forall|k: Seq<char>|
                #[trigger] key_set(ks@).contains(k) <==> raw@.dom().contains(k) && !typed_key(k),
            forall|a: int|
                0 <= a < j ==> {
                    &&& (#[trigger] rows@[n + a]).key == ks@[a]
                    &&& rows@[n + a].label == ks@[a]
                    &&& rows@[n + a].editable
                    &&& rows@[n + a].value == raw@[ks@[a]@]
                },
        decreases ks@.len() - j,
    {
        let k = &ks[j];
        proof {
            assert(key_set(ks@).contains(ks@[j as int]@));
        }
        let ghost kv = *k;
        assert(raw@.dom().contains(kv@));
        let got = raw.get(k.as_str());
        assert(got is Some);
        let value = match got {
            Some(v) => v.clone(),
            None => String::new(),
        };
        let ghost r1 = rows@;
        assert(value == raw@[kv@]);
        rows.push(DetailRow { key: k.clone(), label: k.clone(), value, editable: true });
        proof {
            assert(rows@[n + j as int].key == kv);
            assert(rows@[n + j as int].value == raw@[kv@]);
            assert(rows@.take(n as int) =~= r1.take(n as int));
            assert forall|a: int| 0 <= a < j + 1 implies {
                &&& (#[trigger] rows@[n + a]).key == ks@[a]
                &&& rows@[n + a].label == ks@[a]
                &&& rows@[n + a].editable
                &&& rows@[n + a].value == raw@[ks@[a]@]
            } by {
                if a < j {
                    assert(rows@[n + a] == r1[n + a]);
                }
            }
        }
        j += 1;
    }
    proof {
        let ex = rows@.skip(n as int);
        assert forall|i: int| 0 <= i < ex.len() implies {
            &&& (#[trigger] ex[i]).editable
            &&& ex[i].label@ == ex[i].key@
            &&& raw@.dom().contains(ex[i].key@)
            &&& !typed_key(ex[i].key@)
            &&& ex[i].value@ == raw@[ex[i].key@]@
        } by {
            assert(ex[i] == rows@[n + i]);
            assert(key_set(ks@).contains(ks@[i]@));
        }
        assert forall|i: int, i2: int| 0 <= i < i2 < ex.len() implies text_lt(
            (#[trigger] ex[i]).key@,
            (#[trigger] ex[i2]).key@,
        ) by {
            assert(ex[i] == rows@[n + i]);
            assert(ex[i2] == rows@[n + i2]);
        }
        assert forall|k: Seq<char>| #[trigger] raw@.dom().contains(k) && !typed_key(k) implies exists|
            i: int,
        | 0 <= i < ex.len() && (#[trigger] ex[i]).key@ == k by {
            assert(key_set(ks@).contains(k));
            let a = choose|a: int| 0 <= a < ks@.len() && (#[trigger] ks@[a])@ == k;
            assert(ex[a] == rows@[n + a]);
        }
    }
}

/// The rows of the detail popup for the qube `q`, whose properties are
/// `props` where they are known: the qube's own rows, then the well-known
/// properties it has, then every other property in order of name.
pub fn detail_rows_of(q: &QubeInfo, props: Option<&QubeProperties>) -> (rows: Vec<DetailRow>)
    ensures
        ({
            let fixed = base_rows(*q) + match props {
                Some(p) => typed_rows(*p),
                None => Seq::empty(),
            };
            &&& rows@.len() >= fixed.len()
            &&& rows_model(rows@.take(fixed.len() as int)) == fixed
            &&& match props {
                Some(p) => extra_rows_are(rows@.skip(fixed.len() as int), p.raw@),
                None => rows@.len() == fixed.len(),
            }
        }),
        shows_the_qube(rows@, *q),
{
    let mut rows = own_rows(q);
    proof {
        lemma_own_rows_show_the_qube(*q);
        lemma_rows_show_the_qube(rows@, *q);
    }
    let ghost r0 = rows@;
    match props {
        None => {
            assert(rows@.take(rows@.len() as int) =~= rows@);
            assert(base_rows(*q) + Seq::empty() =~= base_rows(*q));
            rows
        },
        Some(p) => {
            add_typed(&mut rows, p);
            let ghost r1 = rows@;
            add_extras(&mut rows, &p.raw);
            proof {
                assert(rows_model(rows@.take(r1.len() as int)) == rows_model(r1));
                assert(rows_model(rows@.take(5)) == rows_model(r0)) by {
                    assert(rows_model(r1).len() == r1.len());
                assert(rows_model(r1).take(5) =~= rows_model(r0));
                    assert(rows_model(rows@.take(r1.len() as int)).take(5) =~= rows_model(rows@.take(5)));
                }
                assert forall|i: int| 0 <= i < 5 implies row_of(rows@[i]) == row_of(r0[i]) by {
                    assert(rows_model(rows@.take(5))[i] == row_of(rows@[i]));
                    assert(rows_model(r0)[i] == row_of(r0[i]));
                }
                assert(row_of(rows@[0]) == row_of(r0[0]));
                assert(row_of(rows@[1]) == row_of(r0[1]));
                assert(row_of(rows@[2]) == row_of(r0[2]));
                assert(row_of(rows@[3]) == row_of(r0[3]));
                assert(row_of(rows@[4]) == row_of(r0[4]));
            }
            rows
        },
    }
}

/// The rows `rows` open with the qube `q` itself: its class, its state, its
/// label, its template and its netvm, `-` where it has no template or no
/// netvm.
pub open spec fn shows_the_qube(rows: Seq<DetailRow>, q: QubeInfo) -> bool {
    &&& rows.len() >= 5
    &&& rows[0].value@ == q.class.label() && !rows[0].editable
    &&& rows[1].value@ == q.state.label() && !rows[1].editable
    &&& rows[2].key@ == "label"@ && rows[2].value@ == q.label@ && rows[2].editable
    &&& rows[3].key@ == "template"@ && rows[3].editable
    &&& rows[4].key@ == "netvm"@ && rows[4].editable
    &&& q.template matches Some(t) ==> rows[3].value@ == t@
    &&& q.template is None ==> rows[3].value@ == "-"@
    &&& q.netvm matches Some(n) ==> rows[4].value@ == n@
    &&& q.netvm is None ==> rows[4].value@ == "-"@
}

/// The qube's own rows show its class and state, then its label, its
/// template and its netvm: the template row holds the qube's template and
/// the netvm row the qube's netvm wherever it has one, and `-` only where
/// it has none.
pub proof fn lemma_own_rows_show_the_qube(q: QubeInfo)
    ensures
        base_rows(q).len() == 5,
        base_rows(q)[0].2 == q.class.label(),
        base_rows(q)[1].2 == q.state.label(),
        base_rows(q)[2] == ("label"@, "Label"@, q.label@, true),
        base_rows(q)[3].0 == "template"@ && base_rows(q)[3].3,
        base_rows(q)[4].0 == "netvm"@ && base_rows(q)[4].3,
        q.template matches Some(t) ==> base_rows(q)[3].2 == t@,
        q.template is None ==> base_rows(q)[3].2 == "-"@,
        q.netvm matches Some(n) ==> base_rows(q)[4].2 == n@,
        q.netvm is None ==> base_rows(q)[4].2 == "-"@,
{
}

proof fn lemma_rows_show_the_qube(rows: Seq<DetailRow>, q: QubeInfo)
    requires
        rows_model(rows) == base_rows(q),
    ensures
        shows_the_qube(rows, q),
{
    lemma_own_rows_show_the_qube(q);
    assert forall|i: int| 0 <= i < 5 implies row_of(rows[i]) == base_rows(q)[i] by {
        assert(rows_model(rows)[i] == row_of(rows[i]));
    }
    assert(row_of(rows[2]) == base_rows(q)[2]);
    assert(row_of(rows[3]) == base_rows(q)[3]);
    assert(row_of(rows[4]) == base_rows(q)[4]);
}

/// The editable rows among `rows`, as (property, label) pairs, in order.
pub open spec fn editable_rows(rows: Seq<DetailRow>) -> Seq<(String, String)>
    decreases rows.len(),
{
    if rows.len() == 0 {
        Seq::empty()
    } else {
        let r = editable_rows(rows.drop_last());
        let x = rows.last();
        if x.editable && x.key@.len() > 0 {
            r.push((x.key, x.label))
        } else {
            r
        }
    }
}

/// The editable rows among `rows`, as (property, label) pairs, in order.
pub fn editable_pairs(rows: &Vec<DetailRow>) -> (r: Vec<(String, String)>)
    ensures
        r@ == editable_rows(rows@),
{
    let mut out: Vec<(String, String)> = Vec::new();
    let mut i: usize = 0;
    while i < rows.len()
        invariant
            0 <= i <= rows@.len(),
            out@ == editable_rows(rows@.take(i as int)),
        decreases rows@.len() - i,
    {
        proof {
            assert(rows@.take(i + 1).drop_last() =~= rows@.take(i as int));
        }
        let x = &rows[i];
        if x.editable && !x.key.as_str().is_empty() {
            out.push((x.key.clone(), x.label.clone()));
        }
        i += 1;
    }
    assert(rows@.take(rows@.len() as int) =~= rows@);
    out
}

} // verus!
