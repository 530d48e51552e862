//! The command's option table and the parser that checks an argument list
//! against it.
use crate::number::{is_int, is_int_text};
use vstd::prelude::*;

verus! {

/// Number of declared options, the positional `directory` included.
pub const NUM_OPTIONS: usize = 12;

/// `--store FILE`: a store file other than the default one.
pub const STORE: usize = 0;

/// `--store_name FILE`: another file name inside the default store directory.
pub const STORE_NAME: usize = 1;

/// `-P/--purge`: drop directories that no longer exist.
pub const PURGE: usize = 2;

/// `-i/--increase WEIGHT`: raise a directory's weight.
pub const INCREASE: usize = 3;

/// `-a/--add`: record a visit to a directory.
pub const ADD: usize = 4;

/// `-d/--decrease WEIGHT`: lower a directory's weight.
pub const DECREASE: usize = 5;

/// `-T/--truncate N`: keep only the top N directories.
pub const TRUNCATE: usize = 6;

/// `--sorted`: print the directories by score (group "lists").
pub const SORTED: usize = 7;

/// `--sort_method METHOD`: one of frecent, frequent, recent.
pub const SORT_METHOD: usize = 8;

/// `-l/--limit N`: limit what a list prints.
pub const LIMIT: usize = 9;

/// `-s/--stat`: print statistics (group "lists").
pub const STAT: usize = 10;

/// The positional directory argument.
pub const DIRECTORY: usize = 11;

/// What the parsed options hold, option by option: the value given, an empty
/// text for a flag that was given, `None` for an option that was not.
pub type OptionValues = Seq<Option<Seq<char>>>;

/// Why an argument list was refused.
#[derive(Debug, Clone, PartialEq, Eq)]
pub enum ParseError {
    /// The argument at this position of the list names no declared option.
    UnknownArgument { index: usize },
    /// The option takes a value, and the list ends right after it.
    MissingValue { option: usize },
    /// The option was given more than once.
    DuplicateOption { option: usize },
    /// A second positional argument, at this position of the list.
    ExtraPositional { index: usize },
    /// Two options that may not be given together were.
    Conflict { first: usize, second: usize },
    /// The option was given without an option that it needs.
    MissingRequirement { option: usize },
    /// The option's value lies outside its domain.
    InvalidValue { option: usize, value: String },
    /// A flag was written with an attached value (`--purge=x`).
    UnexpectedValue { option: usize },
    /// The list asks for the usage text.
    HelpRequested,
    /// The list asks for the program's version.
    VersionRequested,
}

/// The option that a long name (without its leading `--`) stands for.
pub open spec fn lookup_long(name: Seq<char>) -> Option<usize> {
    if name == "store"@ {
        Some(STORE)
    } else if name == "store_name"@ {
        Some(STORE_NAME)
    } else if name == "purge"@ {
        Some(PURGE)
    } else if name == "increase"@ {
        Some(INCREASE)
    } else if name == "add"@ {
        Some(ADD)
    } else if name == "decrease"@ {
        Some(DECREASE)
    } else if name == "truncate"@ {
        Some(TRUNCATE)
    } else if name == "sorted"@ {
        Some(SORTED)
    } else if name == "sort_method"@ {
        Some(SORT_METHOD)
    } else if name == "limit"@ {
        Some(LIMIT)
    } else if name == "stat"@ {
        Some(STAT)
    } else {
        None
    }
}

/// The option that a short letter (after a single `-`) stands for.
pub open spec fn lookup_short(c: char) -> Option<usize> {
    if c == 'P' {
        Some(PURGE)
    } else if c == 'i' {
        Some(INCREASE)
    } else if c == 'a' {
        Some(ADD)
    } else if c == 'd' {
        Some(DECREASE)
    } else if c == 'T' {
        Some(TRUNCATE)
    } else if c == 'l' {
        Some(LIMIT)
    } else if c == 's' {
        Some(STAT)
    } else {
        None
    }
}

/// Whether the option is followed by a value.
pub open spec fn takes_value(id: usize) -> bool {
    id == STORE || id == STORE_NAME || id == INCREASE || id == DECREASE || id == TRUNCATE
        || id == SORT_METHOD || id == LIMIT
}

/// Whether an argument is written as an option: a dash and at least one
/// more character.
pub open spec fn is_option_token(t: Seq<char>) -> bool {
    t.len() >= 2 && t[0] == '-'
}

/// Whether an argument is written as a long option: `--` and more.
pub open spec fn is_long_token(t: Seq<char>) -> bool {
    t.len() > 2 && t[0] == '-' && t[1] == '-'
}

/// The first position at or after `k` that holds `=` in `b`, or the length
/// of `b` where none does.
pub open spec fn first_eq(b: Seq<char>, k: int) -> int
    decreases b.len() - k,
{
    if k < 0 || k >= b.len() {
        b.len() as int
    } else if b[k] == '=' {
        k
    } else {
        first_eq(b, k + 1)
    }
}

/// The text of a long option after its `--`.
pub open spec fn long_body(t: Seq<char>) -> Seq<char> {
    t.subrange(2, t.len() as int)
}

/// The name of a long option: its text after `--`, up to the first `=`.
pub open spec fn long_name(t: Seq<char>) -> Seq<char> {
    long_body(t).subrange(0, first_eq(long_body(t), 0))
}

/// The value attached to a long option: its text after the first `=`.
pub open spec fn long_inline(t: Seq<char>) -> Option<Seq<char>> {
    let b = long_body(t);
    let e = first_eq(b, 0);
    if e < b.len() {
        Some(b.subrange(e + 1, b.len() as int))
    } else {
        None
    }
}

/// No option given yet.
pub open spec fn absent() -> OptionValues {
    Seq::new(NUM_OPTIONS as nat, |i: int| None)
}

/// Reads the short options grouped in argument `i` (`-Pa`, `-T5`), from its
/// character `k` on. A flag lets the next character name another option; an
/// option that takes a value takes the rest of the argument, or the next
/// argument where nothing is left. Gives the options and whether the next
/// argument was taken.
pub open spec fn scan_shorts(args: Seq<Seq<char>>, i: int, k: int, vals: OptionValues) -> Result<
    (OptionValues, bool),
    ParseError,
>
    decreases args[i].len() - k,
{
    if i < 0 || i >= args.len() || k < 0 || k >= args[i].len() {
        Ok((vals, false))
    } else {
        let t = args[i];
        let c = t[k];
        if c == 'h' {
            Err(ParseError::HelpRequested)
        } else if c == 'V' {
            Err(ParseError::VersionRequested)
        } else {
            match lookup_short(c) {
                None => Err(ParseError::UnknownArgument { index: i as usize }),
                Some(id) => if vals[id as int] is Some {
                    Err(ParseError::DuplicateOption { option: id })
                } else if takes_value(id) {
                    if k + 1 < t.len() {
                        Ok((vals.update(id as int, Some(t.subrange(k + 1, t.len() as int))), false))
                    } else if i + 1 < args.len() {
                        Ok((vals.update(id as int, Some(args[i + 1])), true))
                    } else {
                        Err(ParseError::MissingValue { option: id })
                    }
                } else {
                    scan_shorts(args, i, k + 1, vals.update(id as int, Some(Seq::empty())))
                },
            }
        }
    }
}

/// Reads the arguments from position `i` on as positional ones.
pub open spec fn scan_positionals(args: Seq<Seq<char>>, i: int, vals: OptionValues) -> Result<
    OptionValues,
    ParseError,
>
    decreases args.len() - i,
{
    if i >= args.len() || i < 0 {
        Ok(vals)
    } else if vals[DIRECTORY as int] is Some {
        Err(ParseError::ExtraPositional { index: i as usize })
    } else {
        scan_positionals(args, i + 1, vals.update(DIRECTORY as int, Some(args[i])))
    }
}

/// Reads the arguments from position `i` on, into `vals`. A long option
/// takes its value after `=`, or else the next argument, whatever that
/// holds; short options read as `scan_shorts` says; `--` makes every later
/// argument positional; any other argument that is not option-shaped is the
/// directory. `--help`, `-h`, `--version` and `-V` stop the reading.
pub open spec fn scan(args: Seq<Seq<char>>, i: int, vals: OptionValues) -> Result<
    OptionValues,
    ParseError,
>
    decreases args.len() + 1 - i,
{
    if i >= args.len() || i < 0 {
        Ok(vals)
    } else {
        let t = args[i];
        if t == "--"@ {
            scan_positionals(args, i + 1, vals)
        } else if is_long_token(t) {
            let name = long_name(t);
            if name == "help"@ {
                Err(ParseError::HelpRequested)
            } else if name == "version"@ {
                Err(ParseError::VersionRequested)
            } else {
                match lookup_long(name) {
                    None => Err(ParseError::UnknownArgument { index: i as usize }),
                    Some(id) => if vals[id as int] is Some {
                        Err(ParseError::DuplicateOption { option: id })
                    } else if takes_value(id) {
                        match long_inline(t) {
                            Some(v) => scan(args, i + 1, vals.update(id as int, Some(v))),
                            None => if i + 1 < args.len() {
                                scan(args, i + 2, vals.update(id as int, Some(args[i + 1])))
                            } else {
                                Err(ParseError::MissingValue { option: id })
                            },
                        }
                    } else if long_inline(t) is Some {
                        Err(ParseError::UnexpectedValue { option: id })
                    } else {
                        scan(args, i + 1, vals.update(id as int, Some(Seq::empty())))
                    },
                }
            }
        } else if is_option_token(t) {
            match scan_shorts(args, i, 1, vals) {
                Err(e) => Err(e),
                Ok((next, took)) => if took {
                    scan(args, i + 2, next)
                } else {
                    scan(args, i + 1, next)
                },
            }
        } else if vals[DIRECTORY as int] is Some {
            Err(ParseError::ExtraPositional { index: i as usize })
        } else {
            scan(args, i + 1, vals.update(DIRECTORY as int, Some(t)))
        }
    }
}

/// The options named by an argument list whose first entry is the program's
/// name, before any rule is checked.
pub open spec fn scan_args(args: Seq<Seq<char>>) -> Result<OptionValues, ParseError> {
    scan(args, 1, absent())
}

/// Whether two options may not be given together: the declared conflicts,
/// and the two members of the group "lists".
pub open spec fn conflicts(a: usize, b: usize) -> bool {
    let pair = |x: usize, y: usize|
        (x == STORE && y == STORE_NAME) || (x == INCREASE && y == ADD) || (x == INCREASE && y
            == DECREASE) || (x == ADD && y == DECREASE) || (x == SORTED && y == STAT);
    pair(a, b) || pair(b, a)
}

/// What an option needs given beside it.
#[derive(Debug, Clone, Copy, PartialEq, Eq)]
pub enum Companion {
    /// The positional directory.
    Directory,
    /// A member of the group "lists": `--sorted` or `--stat`.
    ListsGroup,
}

/// The companion that option `id` needs: the directory for `increase`,
/// `add` and `decrease`, the group "lists" for `limit`, none otherwise.
pub open spec fn companion_of(id: usize) -> Option<Companion> {
    if id == INCREASE || id == ADD || id == DECREASE {
        Some(Companion::Directory)
    } else if id == LIMIT {
        Some(Companion::ListsGroup)
    } else {
        None
    }
}

/// Whether a companion is among the given options.
pub open spec fn companion_given(c: Companion, vals: OptionValues) -> bool {
    match c {
        Companion::Directory => vals[DIRECTORY as int] is Some,
        Companion::ListsGroup => vals[SORTED as int] is Some || vals[STAT as int] is Some,
    }
}

/// Whether what option `id` needs is given.
pub open spec fn requirement_met(id: usize, vals: OptionValues) -> bool {
    match companion_of(id) {
        Some(c) => companion_given(c, vals),
        None => true,
    }
}

/// The companion that option `id` needs, if any; a refusal for a missing
/// requirement names it.
pub fn required_companion(id: usize) -> (r: Option<Companion>)
    ensures
        r == companion_of(id),
{
    if id == INCREASE || id == ADD || id == DECREASE {
        Some(Companion::Directory)
    } else if id == LIMIT {
        Some(Companion::ListsGroup)
    } else {
        None
    }
}

/// The sort methods that `--sort_method` accepts.
pub open spec fn is_sort_method(v: Seq<char>) -> bool {
    v == "frecent"@ || v == "frequent"@ || v == "recent"@
}

/// Whether `v` lies in the value domain of option `id`.
pub open spec fn value_ok(id: usize, v: Seq<char>) -> bool {
    if id == TRUNCATE {
        is_int_text(v)
    } else if id == SORT_METHOD {
        is_sort_method(v)
    } else {
        true
    }
}

/// Whether a set of given options obeys every rule of the table.
pub open spec fn obeys_rules(vals: OptionValues) -> bool {
    &&& vals.len() == NUM_OPTIONS
    &&& forall|a: usize, b: usize|
        a < NUM_OPTIONS && b < NUM_OPTIONS && vals[a as int] is Some && vals[b as int] is Some
            ==> !conflicts(a, b)
    &&& forall|a: usize|
        a < NUM_OPTIONS && vals[a as int] is Some ==> requirement_met(a, vals)
    &&& forall|a: usize|
        a < NUM_OPTIONS && #[trigger] vals[a as int] is Some ==> value_ok(a, vals[a as int]->0)
}

/// Whether a rule error names a rule that `vals` breaks.
pub open spec fn breaks_rule(e: ParseError, vals: OptionValues) -> bool {
    match e {
        ParseError::Conflict { first, second } => first < NUM_OPTIONS && second < NUM_OPTIONS
            && vals[first as int] is Some && vals[second as int] is Some && conflicts(
            first,
            second,
        ),
        ParseError::MissingRequirement { option } => option < NUM_OPTIONS
            && vals[option as int] is Some && !requirement_met(option, vals),
        ParseError::InvalidValue { option, value } => option < NUM_OPTIONS && vals[option as int]
            == Some(value@) && !value_ok(option, value@),
        _ => false,
    }
}

/// The given options with the default sort method put in where none was given.
pub open spec fn with_defaults(vals: OptionValues) -> OptionValues {
    if vals[SORT_METHOD as int] is None {
        vals.update(SORT_METHOD as int, Some("frecent"@))
    } else {
        vals
    }
}

/// Whether an argument list (program name first) parses.
pub open spec fn parses(args: Seq<Seq<char>>) -> bool {
    scan_args(args) matches Ok(vals) && obeys_rules(vals)
}

/// The options of an argument list that parsed, with defaults put in.
pub struct ParsedOptions {
    values: Vec<Option<String>>,
}

/// The abstract value of an option vector.
pub open spec fn view_values(v: Seq<Option<String>>) -> OptionValues {
    Seq::new(
        v.len(),
        |i: int|
            match v[i] {
                Some(s) => Some(s@),
                None => None,
            },
    )
}

/// The texts of an argument list.
pub open spec fn view_args(argv: Seq<String>) -> Seq<Seq<char>> {
    Seq::new(argv.len(), |i: int| argv[i]@)
}

impl View for ParsedOptions {
    type V = OptionValues;

    closed spec fn view(&self) -> OptionValues {
        view_values(self.values@)
    }
}

impl ParsedOptions {
    /// The options obey every rule of the table.
    #[verifier::type_invariant]
    spec fn obeys_table(&self) -> bool {
        obeys_rules(view_values(self.values@))
    }

    /// Every rule of the table holds of the options.
    pub fn check_table(&self)
        ensures
            obeys_rules(self@),
    {
        proof {
            use_type_invariant(self);
        }
    }

    /// Whether option `id` was given, or has a default.
    pub fn is_present(&self, id: usize) -> (r: bool)
        requires
            id < NUM_OPTIONS,
        ensures
            r == (self@[id as int] is Some),
    {
        proof {
            use_type_invariant(self);
        }
        self.values[id].is_some()
    }

    /// The value of option `id`: its text, an empty text for a flag that
    /// was given, `None` for an option that was not.
    pub fn value_of(&self, id: usize) -> (r: Option<String>)
        requires
            id < NUM_OPTIONS,
        ensures
            r is Some == self@[id as int] is Some,
            r matches Some(v) ==> self@[id as int] == Some(v@),
    {
        proof {
            use_type_invariant(self);
        }
        match &self.values[id] {
            Some(v) => Some(v.clone()),
            None => None,
        }
    }
}

/// Whether two texts hold the same characters.
fn same_text(a: &str, b: &str) -> (r: bool)
    ensures
        r == (a@ == b@),
{
    let n = a.unicode_len();
    if n != b.unicode_len() {
        return false;
    }
    let mut i: usize = 0;
    while i < n
        invariant
            n == a@.len(),
            n == b@.len(),
            i <= n,
            forall|j: int| 0 <= j < i ==> a@[j] == b@[j],
        decreases n - i,
    {
        if a.get_char(i) != b.get_char(i) {
            return false;
        }
        i = i + 1;
    }
    proof {
        assert(a@ =~= b@);
    }
    true
}

/// Looks up a long option name.
fn long_option(name: &str) -> (r: Option<usize>)
    ensures
        r == lookup_long(name@),
{
    if same_text(name, "store") {
        Some(STORE)
    } else if same_text(name, "store_name") {
        Some(STORE_NAME)
    } else if same_text(name, "purge") {
        Some(PURGE)
    } else if same_text(name, "increase") {
        Some(INCREASE)
    } else if same_text(name, "add") {
        Some(ADD)
    } else if same_text(name, "decrease") {
        Some(DECREASE)
    } else if same_text(name, "truncate") {
        Some(TRUNCATE)
    } else if same_text(name, "sorted") {
        Some(SORTED)
    } else if same_text(name, "sort_method") {
        Some(SORT_METHOD)
    } else if same_text(name, "limit") {
        Some(LIMIT)
    } else if same_text(name, "stat") {
        Some(STAT)
    } else {
        None
    }
}

/// Looks up a short option letter.
fn short_option(c: char) -> (r: Option<usize>)
    ensures
        r == lookup_short(c),
{
    if c == 'P' {
        Some(PURGE)
    } else if c == 'i' {
        Some(INCREASE)
    } else if c == 'a' {
        Some(ADD)
    } else if c == 'd' {
        Some(DECREASE)
    } else if c == 'T' {
        Some(TRUNCATE)
    } else if c == 'l' {
        Some(LIMIT)
    } else if c == 's' {
        Some(STAT)
    } else {
        None
    }
}

/// Whether option `id` is followed by a value.
fn option_takes_value(id: usize) -> (r: bool)
    ensures
        r == takes_value(id),
{
    id == STORE || id == STORE_NAME || id == INCREASE || id == DECREASE || id == TRUNCATE
        || id == SORT_METHOD || id == LIMIT
}

/// The first position that holds `=` in `b`, or its length.
fn find_eq(b: &str) -> (r: usize)
    ensures
        r as int == first_eq(b@, 0),
        r <= b@.len(),
{
    let n = b.unicode_len();
    let mut k: usize = 0;
    while k < n
        invariant
            n == b@.len(),
            k <= n,
            first_eq(b@, 0) == first_eq(b@, k as int),
        decreases n - k,
    {
        if b.get_char(k) == '=' {
            return k;
        }
        k = k + 1;
    }
    k
}

/// Reads the short options grouped in argument `i` into `vals`; says
/// whether the next argument was taken as a value.
fn read_shorts(argv: &Vec<String>, i: usize, vals: &mut Vec<Option<String>>) -> (r: Result<
    bool,
    ParseError,
>)
    requires
        i < argv@.len(),
        old(vals)@.len() == NUM_OPTIONS,
    ensures
        final(vals)@.len() == NUM_OPTIONS,
        r matches Ok(took) ==> scan_shorts(view_args(argv@), i as int, 1, view_values(old(vals)@))
            == Ok::<(OptionValues, bool), ParseError>((view_values(final(vals)@), took)),
        r matches Ok(took) ==> (took ==> i + 1 < argv@.len()),
        r matches Err(e) ==> scan_shorts(view_args(argv@), i as int, 1, view_values(old(vals)@))
            == Err::<(OptionValues, bool), ParseError>(e),
{
    let ghost args = view_args(argv@);
    let ghost start = view_values(vals@);
    let t: &str = argv[i].as_str();
    assert(t@ == args[i as int]);
    let an = argv.len();
    let n = t.unicode_len();
    let mut k: usize = 1;
    while k < n
        invariant
            an == argv@.len(),
            start == view_values(old(vals)@),
            n == t@.len(),
            t@ == args[i as int],
            args == view_args(argv@),
            i < argv@.len(),
            1 <= k,
            vals@.len() == NUM_OPTIONS,
            scan_shorts(args, i as int, 1, start) == scan_shorts(
                args,
                i as int,
                k as int,
                view_values(vals@),
            ),
        decreases n - k,
    {
        let ghost before = view_values(vals@);
        let c = t.get_char(k);
        if c == 'h' {
            return Err(ParseError::HelpRequested);
        }
        if c == 'V' {
            return Err(ParseError::VersionRequested);
        }
        match short_option(c) {
            None => {
                return Err(ParseError::UnknownArgument { index: i });
            },
            Some(id) => {
                if vals[id].is_some() {
                    return Err(ParseError::DuplicateOption { option: id });
                }
                if option_takes_value(id) {
                    if k + 1 < n {
                        let v = t.substring_char(k + 1, n).to_owned();
                        vals[id] = Some(v);
                        proof {
                            assert(view_values(vals@) =~= before.update(
                                id as int,
                                Some(t@.subrange(k + 1, n as int)),
                            ));
                        }
                        return Ok(false);
                    } else if i + 1 < an {
                        let v = argv[i + 1].clone();
                        vals[id] = Some(v);
                        proof {
                            assert(view_values(vals@) =~= before.update(
                                id as int,
                                Some(args[i + 1]),
                            ));
                        }
                        return Ok(true);
                    } else {
                        return Err(ParseError::MissingValue { option: id });
                    }
                }
                vals[id] = Some(String::new());
                proof {
                    assert(view_values(vals@) =~= before.update(id as int, Some(Seq::empty())));
                }
                k = k + 1;
            },
        }
    }
    Ok(false)
}

/// Reads the arguments from position `i` on as positional ones.
fn read_positionals(argv: &Vec<String>, i: usize, vals: &mut Vec<Option<String>>) -> (r: Result<
    (),
    ParseError,
>)
    requires
        old(vals)@.len() == NUM_OPTIONS,
    ensures
        final(vals)@.len() == NUM_OPTIONS,
        r is Ok ==> scan_positionals(view_args(argv@), i as int, view_values(old(vals)@)) == Ok::<
            OptionValues,
            ParseError,
        >(view_values(final(vals)@)),
        r matches Err(e) ==> scan_positionals(view_args(argv@), i as int, view_values(old(vals)@))
            == Err::<OptionValues, ParseError>(e),
{
    let ghost args = view_args(argv@);
    let ghost start = view_values(vals@);
    let n = argv.len();
    let mut j: usize = i;
    while j < n
        invariant
            n == argv@.len(),
            args == view_args(argv@),
            i <= j,
            start == view_values(old(vals)@),
            vals@.len() == NUM_OPTIONS,
            scan_positionals(args, i as int, start) == scan_positionals(
                args,
                j as int,
                view_values(vals@),
            ),
        decreases n - j,
    {
        let ghost before = view_values(vals@);
        if vals[DIRECTORY].is_some() {
            return Err(ParseError::ExtraPositional { index: j });
        }
        vals[DIRECTORY] = Some(argv[j].clone());
        proof {
            assert(view_values(vals@) =~= before.update(DIRECTORY as int, Some(args[j as int])));
        }
        j = j + 1;
    }
    Ok(())
}

/// Reads an argument list (program name first) into the options it names,
/// before any rule is checked.
fn scan_arguments(argv: &Vec<String>) -> (r: Result<Vec<Option<String>>, ParseError>)
    ensures
        match r {
            Ok(v) => scan_args(view_args(argv@)) == Ok::<OptionValues, ParseError>(
                view_values(v@),
            ) && v@.len() == NUM_OPTIONS,
            Err(e) => scan_args(view_args(argv@)) == Err::<OptionValues, ParseError>(e),
        },
{
    let ghost args = view_args(argv@);
    let mut vals: Vec<Option<String>> = Vec::new();
    let mut k: usize = 0;
    while k < NUM_OPTIONS
        invariant
            k <= NUM_OPTIONS,
            vals@.len() == k,
            forall|j: int| 0 <= j < k ==> vals@[j] is None,
        decreases NUM_OPTIONS - k,
    {
        vals.push(None);
        k = k + 1;
    }
    proof {
        assert(view_values(vals@) =~= absent());
    }
    let n = argv.len();
    let mut i: usize = 1;
    while i < n
        invariant
            n == argv@.len(),
            args == view_args(argv@),
            1 <= i,
            vals@.len() == NUM_OPTIONS,
            scan_args(args) == scan(args, i as int, view_values(vals@)),
        decreases n - i,
    {
        let t: &str = argv[i].as_str();
        let ghost old_vals = view_values(vals@);
        assert(t@ == args[i as int]);
        let tl = t.unicode_len();
        if same_text(t, "--") {
            match read_positionals(argv, i + 1, &mut vals) {
                Err(e) => return Err(e),
                Ok(()) => return Ok(vals),
            }
        } else if tl > 2 && t.get_char(0) == '-' && t.get_char(1) == '-' {
            let body = t.substring_char(2, tl);
            let bl = body.unicode_len();
            let e = find_eq(body);
            let name = body.substring_char(0, e);
            assert(body@ == long_body(t@));
            assert(name@ == long_name(t@));
            if same_text(name, "help") {
                return Err(ParseError::HelpRequested);
            }
            if same_text(name, "version") {
                return Err(ParseError::VersionRequested);
            }
            match long_option(name) {
                None => {
                    return Err(ParseError::UnknownArgument { index: i });
                },
                Some(id) => {
                    if vals[id].is_some() {
                        return Err(ParseError::DuplicateOption { option: id });
                    }
                    if option_takes_value(id) {
                        if e < bl {
                            let v = body.substring_char(e + 1, bl).to_owned();
                            vals[id] = Some(v);
                            proof {
                                assert(view_values(vals@) =~= old_vals.update(
                                    id as int,
                                    Some(body@.subrange(e + 1, bl as int)),
                                ));
                            }
                            i = i + 1;
                        } else if i + 1 < n {
                            let v = argv[i + 1].clone();
                            vals[id] = Some(v);
                            proof {
                                assert(view_values(vals@) =~= old_vals.update(
                                    id as int,
                                    Some(args[i + 1]),
                                ));
                            }
                            i = i + 2;
                        } else {
                            return Err(ParseError::MissingValue { option: id });
                        }
                    } else if e < bl {
                        return Err(ParseError::UnexpectedValue { option: id });
                    } else {
                        vals[id] = Some(String::new());
                        proof {
                            assert(view_values(vals@) =~= old_vals.update(
                                id as int,
                                Some(Seq::empty()),
                            ));
                        }
                        i = i + 1;
                    }
                },
            }
        } else if tl >= 2 && t.get_char(0) == '-' {
            match read_shorts(argv, i, &mut vals) {
                Err(e) => return Err(e),
                Ok(took) => {
                    if took {
                        i = i + 2;
                    } else {
                        i = i + 1;
                    }
                },
            }
        } else {
            if vals[DIRECTORY].is_some() {
                return Err(ParseError::ExtraPositional { index: i });
            }
            vals[DIRECTORY] = Some(argv[i].clone());
            proof {
                assert(view_values(vals@) =~= old_vals.update(DIRECTORY as int, Some(t@)));
            }
            i = i + 1;
        }
    }
    Ok(vals)
}

/// Refuses option vectors in which both `a` and `b` are given.
fn check_pair(vals: &Vec<Option<String>>, a: usize, b: usize) -> (r: Result<(), ParseError>)
    requires
        a < NUM_OPTIONS,
        b < NUM_OPTIONS,
        vals@.len() == NUM_OPTIONS,
        conflicts(a, b),
    ensures
        r is Ok <==> !(vals@[a as int] is Some && vals@[b as int] is Some),
        r matches Err(e) ==> breaks_rule(e, view_values(vals@)),
{
    if vals[a].is_some() && vals[b].is_some() {
        Err(ParseError::Conflict { first: a, second: b })
    } else {
        Ok(())
    }
}

/// Refuses option vectors in which option `id` is given without what it
/// needs.
fn check_requirement(vals: &Vec<Option<String>>, id: usize) -> (r: Result<(), ParseError>)
    requires
        id < NUM_OPTIONS,
        vals@.len() == NUM_OPTIONS,
    ensures
        r is Ok <==> (vals@[id as int] is Some ==> requirement_met(id, view_values(vals@))),
        r matches Err(e) ==> breaks_rule(e, view_values(vals@)),
{
    let met = if id == INCREASE || id == ADD || id == DECREASE {
        vals[DIRECTORY].is_some()
    } else if id == LIMIT {
        vals[SORTED].is_some() || vals[STAT].is_some()
    } else {
        true
    };
    if vals[id].is_some() && !met {
        Err(ParseError::MissingRequirement { option: id })
    } else {
        Ok(())
    }
}

/// Whether `v` names a sort method.
fn sort_method_ok(v: &str) -> (r: bool)
    ensures
        r == is_sort_method(v@),
{
    same_text(v, "frecent") || same_text(v, "frequent") || same_text(v, "recent")
}

/// Checks an option vector against every rule of the table.
fn check_rules(vals: &Vec<Option<String>>) -> (r: Result<(), ParseError>)
    requires
        vals@.len() == NUM_OPTIONS,
    ensures
        r is Ok <==> obeys_rules(view_values(vals@)),
        r matches Err(e) ==> breaks_rule(e, view_values(vals@)),
{
    let ghost vv = view_values(vals@);
    match check_pair(vals, STORE, STORE_NAME) {
        Err(e) => return Err(e),
        Ok(()) => {},
    }
    match check_pair(vals, INCREASE, ADD) {
        Err(e) => return Err(e),
        Ok(()) => {},
    }
    match check_pair(vals, INCREASE, DECREASE) {
        Err(e) => return Err(e),
        Ok(()) => {},
    }
    match check_pair(vals, ADD, DECREASE) {
        Err(e) => return Err(e),
        Ok(()) => {},
    }
    match check_pair(vals, SORTED, STAT) {
        Err(e) => return Err(e),
        Ok(()) => {},
    }
    let mut id: usize = 0;
    while id < NUM_OPTIONS
        invariant
            vals@.len() == NUM_OPTIONS,
            vv == view_values(vals@),
            id <= NUM_OPTIONS,
            forall|a: usize| a < id && vv[a as int] is Some ==> requirement_met(a, vv),
        decreases NUM_OPTIONS - id,
    {
        match check_requirement(vals, id) {
            Err(e) => return Err(e),
            Ok(()) => {},
        }
        id = id + 1;
    }
    match &vals[TRUNCATE] {
        Some(v) => match is_int(v.as_str()) {
            Err(_) => {
                assert(vv[TRUNCATE as int] == Some(v@));
                return Err(ParseError::InvalidValue { option: TRUNCATE, value: v.clone() });
            },
            Ok(()) => {},
        },
        None => {},
    }
    match &vals[SORT_METHOD] {
        Some(v) => if !sort_method_ok(v.as_str()) {
            return Err(ParseError::InvalidValue { option: SORT_METHOD, value: v.clone() });
        },
        None => {},
    }
    Ok(())
}

/// Putting in the default sort method breaks no rule.
proof fn lemma_defaults_keep_rules(vals: OptionValues)
    requires
        obeys_rules(vals),
    ensures
        obeys_rules(with_defaults(vals)),
{
    let w = with_defaults(vals);
    assert forall|a: usize| a < NUM_OPTIONS && a != SORT_METHOD implies w[a as int] == vals[a
        as int] by {}
    assert forall|a: usize|
        a < NUM_OPTIONS && #[trigger] w[a as int] is Some implies value_ok(a, w[a as int]->0) by {
        if a != SORT_METHOD {
            assert(vals[a as int] is Some);
        }
    }
    assert forall|a: usize| a < NUM_OPTIONS && w[a as int] is Some implies requirement_met(
        a,
        w,
    ) by {
        if a != SORT_METHOD {
            assert(vals[a as int] is Some);
            assert(requirement_met(a, vals));
        }
    }
}

/// Parses an argument list whose first entry is the program's name.
pub fn parse(argv: &Vec<String>) -> (r: Result<ParsedOptions, ParseError>)
    ensures
        r is Ok <==> parses(view_args(argv@)),
        r matches Ok(p) ==> (scan_args(view_args(argv@)) matches Ok(vals) && p@ == with_defaults(
            vals,
        )),
        r matches Ok(p) ==> obeys_rules(p@),
        r matches Err(e) ==> match scan_args(view_args(argv@)) {
            Err(s) => e == s,
            Ok(vals) => breaks_rule(e, vals),
        },
{
    let mut vals = match scan_arguments(argv) {
        Err(e) => return Err(e),
        Ok(v) => v,
    };
    match check_rules(&vals) {
        Err(e) => return Err(e),
        Ok(()) => {},
    }
    let ghost given = view_values(vals@);
    if vals[SORT_METHOD].is_none() {
        vals[SORT_METHOD] = Some("frecent".to_owned());
        proof {
            assert(view_values(vals@) =~= with_defaults(given));
        }
    }
    proof {
        lemma_defaults_keep_rules(given);
    }
    Ok(ParsedOptions { values: vals })
}

} // verus!
