//! What holds of every argument list, stated over the parser's model.
use crate::number::is_int_text;
use crate::options::{
    absent, conflicts, first_eq, is_long_token, long_body, long_inline, long_name, is_sort_method, lookup_long, parses, requirement_met, scan, scan_args,
    value_ok, OptionValues, ParseError, ADD, DECREASE, DIRECTORY, INCREASE, LIMIT, NUM_OPTIONS,
    PURGE, SORTED, SORT_METHOD, STAT, STORE, STORE_NAME, TRUNCATE,
};
use vstd::prelude::*;

verus! {

/// Each long name finds its own option.
proof fn lemma_long_names()
    ensures
        lookup_long("store"@) == Some(STORE),
        lookup_long("store_name"@) == Some(STORE_NAME),
        lookup_long("purge"@) == Some(PURGE),
        lookup_long("increase"@) == Some(INCREASE),
        lookup_long("add"@) == Some(ADD),
        lookup_long("decrease"@) == Some(DECREASE),
        lookup_long("truncate"@) == Some(TRUNCATE),
        lookup_long("sorted"@) == Some(SORTED),
        lookup_long("sort_method"@) == Some(SORT_METHOD),
        lookup_long("limit"@) == Some(LIMIT),
        lookup_long("stat"@) == Some(STAT),
        "help"@.len() == 4,
        "version"@.len() == 7,
{
    reveal_strlit("store");
    reveal_strlit("store_name");
    reveal_strlit("purge");
    reveal_strlit("increase");
    reveal_strlit("add");
    reveal_strlit("decrease");
    reveal_strlit("truncate");
    reveal_strlit("sorted");
    reveal_strlit("sort_method");
    reveal_strlit("limit");
    reveal_strlit("stat");
    reveal_strlit("help");
    reveal_strlit("version");
    assert("help"@.len() == 4 && "version"@.len() == 7);
    assert("store"@.len() == 5 && "store"@[0] == 's');
    assert("store_name"@.len() == 10 && "store_name"@[0] == 's');
    assert("purge"@.len() == 5 && "purge"@[0] == 'p');
    assert("increase"@.len() == 8 && "increase"@[0] == 'i');
    assert("add"@.len() == 3 && "add"@[0] == 'a');
    assert("decrease"@.len() == 8 && "decrease"@[0] == 'd');
    assert("truncate"@.len() == 8 && "truncate"@[0] == 't');
    assert("sorted"@.len() == 6 && "sorted"@[0] == 's');
    assert("sort_method"@.len() == 11 && "sort_method"@[0] == 's');
    assert("limit"@.len() == 5 && "limit"@[0] == 'l');
    assert("stat"@.len() == 4 && "stat"@[0] == 's');
}

proof fn lemma_first_eq_none(b: Seq<char>, k: int)
    requires
        0 <= k <= b.len(),
        forall|j: int| k <= j < b.len() ==> b[j] != '=',
    ensures
        first_eq(b, k) == b.len(),
    decreases b.len() - k,
{
    if k < b.len() {
        lemma_first_eq_none(b, k + 1);
    }
}

proof fn lemma_first_eq_at(b: Seq<char>, k: int, e: int)
    requires
        0 <= k <= e < b.len(),
        forall|j: int| k <= j < e ==> b[j] != '=',
        b[e] == '=',
    ensures
        first_eq(b, k) == e,
    decreases e - k,
{
    if k < e {
        lemma_first_eq_at(b, k + 1, e);
    }
}

/// How `--name` reads, for a name without `=`.
proof fn lemma_plain_long(name: Seq<char>)
    requires
        name.len() > 0,
        forall|j: int| 0 <= j < name.len() ==> name[j] != '=',
    ensures
        is_long_token("--"@ + name),
        long_name("--"@ + name) == name,
        long_inline("--"@ + name) is None,
        "--"@ + name != "--"@,
{
    reveal_strlit("--");
    let t = "--"@ + name;
    assert(long_body(t) =~= name);
    lemma_first_eq_none(name, 0);
    assert(name.subrange(0, name.len() as int) =~= name);
    assert(t.len() != "--"@.len());
}

/// How `--name=value` reads, for a name without `=`.
proof fn lemma_long_with_value(name: Seq<char>, v: Seq<char>)
    requires
        name.len() > 0,
        forall|j: int| 0 <= j < name.len() ==> name[j] != '=',
    ensures
        is_long_token("--"@ + name + "="@ + v),
        long_name("--"@ + name + "="@ + v) == name,
        long_inline("--"@ + name + "="@ + v) == Some(v),
        "--"@ + name + "="@ + v != "--"@,
{
    reveal_strlit("--");
    reveal_strlit("=");
    let t = "--"@ + name + "="@ + v;
    let b = long_body(t);
    assert(b =~= name + "="@ + v);
    lemma_first_eq_at(b, 0, name.len() as int);
    assert(b.subrange(0, name.len() as int) =~= name);
    assert(b.subrange(name.len() as int + 1, b.len() as int) =~= v);
    assert(t.len() != "--"@.len());
}

/// Two options that conflict, both given, make the list fail to parse.
pub proof fn lemma_conflict_fails(args: Seq<Seq<char>>, a: usize, b: usize)
    requires
        a < NUM_OPTIONS,
        b < NUM_OPTIONS,
        conflicts(a, b),
        scan_args(args) matches Ok(vals) && vals[a as int] is Some && vals[b as int] is Some,
    ensures
        !parses(args),
{
}

/// An option given without what it needs makes the list fail to parse:
/// `increase`, `add` or `decrease` without a directory, `limit` without
/// `sorted` or `stat`.
pub proof fn lemma_missing_requirement_fails(args: Seq<Seq<char>>, a: usize)
    requires
        scan_args(args) matches Ok(vals) && vals[a as int] is Some && (((a == INCREASE || a == ADD
            || a == DECREASE) && vals[DIRECTORY as int] is None) || (a == LIMIT && vals[SORTED
            as int] is None && vals[STAT as int] is None)),
    ensures
        !parses(args),
{
    let vals = scan_args(args)->Ok_0;
    if vals.len() == NUM_OPTIONS {
        assert(!requirement_met(a, vals));
    }
}

/// `--sort_method` followed by a text parses exactly when the text names a
/// sort method.
pub proof fn lemma_sort_method_domain(prog: Seq<char>, v: Seq<char>)
    ensures
        parses(seq![prog, "--sort_method"@, v]) <==> is_sort_method(v),
{
    reveal_strlit("--sort_method");
    reveal_strlit("sort_method");
    reveal_strlit("--");
    lemma_long_names();
    assert("--sort_method"@ =~= "--"@ + "sort_method"@);
    lemma_plain_long("sort_method"@);
    let args = seq![prog, "--sort_method"@, v];
    let vals = absent().update(SORT_METHOD as int, Some(v));
    assert(scan(args, 3, vals) == Ok::<OptionValues, ParseError>(vals));
    assert(scan_args(args) == Ok::<OptionValues, ParseError>(vals));
    if !is_sort_method(v) {
        assert(!value_ok(SORT_METHOD, vals[SORT_METHOD as int]->0));
    }
}

/// `--truncate` followed by a text parses exactly when the text is a
/// signed 64-bit integer.
pub proof fn lemma_truncate_domain(prog: Seq<char>, v: Seq<char>)
    ensures
        parses(seq![prog, "--truncate"@, v]) <==> is_int_text(v),
{
    reveal_strlit("--truncate");
    reveal_strlit("truncate");
    reveal_strlit("--");
    lemma_long_names();
    assert("--truncate"@ =~= "--"@ + "truncate"@);
    lemma_plain_long("truncate"@);
    let args = seq![prog, "--truncate"@, v];
    let vals = absent().update(TRUNCATE as int, Some(v));
    assert(scan(args, 3, vals) == Ok::<OptionValues, ParseError>(vals));
    assert(scan_args(args) == Ok::<OptionValues, ParseError>(vals));
    if !is_int_text(v) {
        assert(!value_ok(TRUNCATE, vals[TRUNCATE as int]->0));
    }
}

/// `--truncate=` followed by a text parses exactly when the text is a
/// signed 64-bit integer.
pub proof fn lemma_truncate_attached(prog: Seq<char>, v: Seq<char>)
    ensures
        parses(seq![prog, "--"@ + "truncate"@ + "="@ + v]) <==> is_int_text(v),
{
    reveal_strlit("truncate");
    lemma_long_names();
    lemma_long_with_value("truncate"@, v);
    let args = seq![prog, "--"@ + "truncate"@ + "="@ + v];
    let vals = absent().update(TRUNCATE as int, Some(v));
    assert(scan(args, 2, vals) == Ok::<OptionValues, ParseError>(vals));
    assert(scan_args(args) == Ok::<OptionValues, ParseError>(vals));
    if !is_int_text(v) {
        assert(!value_ok(TRUNCATE, vals[TRUNCATE as int]->0));
    }
}

/// `--limit N` alone fails to parse; with `--sorted` after it, it parses.
pub proof fn lemma_limit_needs_list(prog: Seq<char>, n: Seq<char>)
    ensures
        !parses(seq![prog, "--limit"@, n]),
        parses(seq![prog, "--limit"@, n, "--sorted"@]),
{
    reveal_strlit("--limit");
    reveal_strlit("limit");
    reveal_strlit("--sorted");
    reveal_strlit("sorted");
    reveal_strlit("--");
    lemma_long_names();
    assert("--limit"@ =~= "--"@ + "limit"@);
    assert("--sorted"@ =~= "--"@ + "sorted"@);
    lemma_plain_long("limit"@);
    lemma_plain_long("sorted"@);
    let alone = seq![prog, "--limit"@, n];
    let vals = absent().update(LIMIT as int, Some(n));
    assert(scan(alone, 3, vals) == Ok::<OptionValues, ParseError>(vals));
    assert(scan_args(alone) == Ok::<OptionValues, ParseError>(vals));
    assert(!requirement_met(LIMIT, vals));
    let listed = seq![prog, "--limit"@, n, "--sorted"@];
    let both = vals.update(SORTED as int, Some(Seq::empty()));
    assert(scan(listed, 4, both) == Ok::<OptionValues, ParseError>(both));
    assert(scan(listed, 3, vals) == Ok::<OptionValues, ParseError>(both));
    assert(scan_args(listed) == Ok::<OptionValues, ParseError>(both));
}

} // verus!
