//! Command line options: flags and options with a value, long (`--name`) or
//! short (`-n`, also clustered as `-nv`). Options are kept in association
//! lists keyed by name, in the order in which they were first added.
use crate::text::chars_of;
use vstd::prelude::*;

verus! {

/// A flag, or an option that takes a value.
#[derive(Debug)]
pub enum Opt {
    Flag { short_name: String, long_name: String, description: String },
    Value { short_name: String, long_name: String, description: String, default: String },
}

/// The first value stored under `k` from index `i` on.
pub open spec fn lookup_from<V>(v: Seq<(Seq<char>, V)>, k: Seq<char>, i: int) -> Option<V>
    decreases v.len() - i,
{
    if i < 0 || i >= v.len() {
        None
    } else if v[i].0 == k {
        Some(v[i].1)
    } else {
        lookup_from(v, k, i + 1)
    }
}

/// The value stored under `k`.
pub open spec fn lookup<V>(v: Seq<(Seq<char>, V)>, k: Seq<char>) -> Option<V> {
    lookup_from(v, k, 0)
}

/// The first index from `i` on whose key is `k`.
pub open spec fn index_from<V>(v: Seq<(Seq<char>, V)>, k: Seq<char>, i: int) -> Option<int>
    decreases v.len() - i,
{
    if i < 0 || i >= v.len() {
        None
    } else if v[i].0 == k {
        Some(i)
    } else {
        index_from(v, k, i + 1)
    }
}

/// `v` with `val` stored under `k`: in place of the value there, or appended.
pub open spec fn inserted<V>(v: Seq<(Seq<char>, V)>, k: Seq<char>, val: V) -> Seq<(Seq<char>, V)> {
    match index_from(v, k, 0) {
        Some(i) => v.update(i, (k, val)),
        None => v.push((k, val)),
    }
}

/// No two entries have the same key.
pub open spec fn keys_distinct<V>(v: Seq<(Seq<char>, V)>) -> bool {
    forall|a: int, b: int| 0 <= a < b < v.len() ==> #[trigger] v[a].0 != #[trigger] v[b].0
}

proof fn lemma_index_from<V>(v: Seq<(Seq<char>, V)>, k: Seq<char>, i: int)
    requires
        0 <= i,
    ensures
        index_from(v, k, i) matches Some(j) ==> i <= j < v.len() && v[j].0 == k,
        index_from(v, k, i) is None ==> forall|j: int| i <= j < v.len() ==> v[j].0 != k,
    decreases v.len() - i,
{
    if i < v.len() && v[i].0 != k {
        lemma_index_from(v, k, i + 1);
    }
}

/// Storing under a key keeps the keys distinct.
pub proof fn lemma_inserted_distinct<V>(v: Seq<(Seq<char>, V)>, k: Seq<char>, val: V)
    requires
        keys_distinct(v),
    ensures
        keys_distinct(inserted(v, k, val)),
{
    lemma_index_from(v, k, 0);
    let w = inserted(v, k, val);
    match index_from(v, k, 0) {
        Some(i) => {
            assert forall|a: int, b: int| 0 <= a < b < w.len() implies #[trigger] w[a].0 != #[trigger] w[b].0 by {
                assert(w[a].0 == v[a].0);
                assert(w[b].0 == v[b].0);
            }
        },
        None => {
            assert forall|a: int, b: int| 0 <= a < b < w.len() implies #[trigger] w[a].0 != #[trigger] w[b].0 by {
                if b < v.len() {
                    assert(w[a].0 == v[a].0);
                    assert(w[b].0 == v[b].0);
                } else {
                    assert(w[a].0 == v[a].0);
                }
            }
        },
    }
}

pub open spec fn opt_entries(v: Seq<(String, Opt)>) -> Seq<(Seq<char>, Opt)> {
    v.map_values(|e: (String, Opt)| (e.0@, e.1))
}

pub open spec fn text_entries(v: Seq<(String, String)>) -> Seq<(Seq<char>, Seq<char>)> {
    v.map_values(|e: (String, String)| (e.0@, e.1@))
}

pub open spec fn texts(v: Seq<String>) -> Seq<Seq<char>> {
    v.map_values(|s: String| s@)
}

impl Opt {
    pub open spec fn short(&self) -> Seq<char> {
        match self {
            Opt::Flag { short_name, .. } => short_name@,
            Opt::Value { short_name, .. } => short_name@,
        }
    }

    pub open spec fn long(&self) -> Seq<char> {
        match self {
            Opt::Flag { long_name, .. } => long_name@,
            Opt::Value { long_name, .. } => long_name@,
        }
    }

    /// A copy of this option.
    pub fn duplicate(&self) -> (r: Opt)
        ensures
            r == *self,
    {
        match self {
            Opt::Flag { short_name, long_name, description } => Opt::Flag {
                short_name: short_name.clone(),
                long_name: long_name.clone(),
                description: description.clone(),
            },
            Opt::Value { short_name, long_name, description, default } => Opt::Value {
                short_name: short_name.clone(),
                long_name: long_name.clone(),
                description: description.clone(),
                default: default.clone(),
            },
        }
    }

    /// A flag that was given.
    pub fn is_set(&self, r: &ParserResult) -> (b: bool)
        ensures
            b == (self is Flag && lookup(text_entries(r.opts@), self.long()) is Some),
    {
        match self {
            Opt::Flag { long_name, .. } => r.get_flag(long_name.as_str()),
            _ => false,
        }
    }

    /// The value of an option with a value; empty for a flag.
    pub fn val(&self, r: &ParserResult) -> (s: String)
        ensures
            self is Value ==> s@ == r.value_of(self.long()),
            self is Flag ==> s@.len() == 0,
    {
        match self {
            Opt::Value { long_name, .. } => r.get_opt(long_name.as_str()),
            _ => String::new(),
        }
    }
}

/// What parsing the command line found.
#[derive(Debug)]
pub struct ParserResult {
    pub command_name: String,
    /// the long name of each option given, with its value (empty for a flag)
    pub opts: Vec<(String, String)>,
    /// the arguments that are no options
    pub params: Vec<String>,
    pub long_opts: Vec<(String, Opt)>,
}

impl ParserResult {
    /// The value given for `key`, else the default of the option `key`, else nothing.
    pub open spec fn value_of(&self, key: Seq<char>) -> Seq<char> {
        match lookup(text_entries(self.opts@), key) {
            Some(v) => v,
            None => match lookup(opt_entries(self.long_opts@), key) {
                Some(Opt::Value { default, .. }) => default@,
                _ => Seq::empty(),
            },
        }
    }

    /// The flag or option `key` was given.
    pub fn get_flag(&self, key: &str) -> (b: bool)
        ensures
            b == lookup(text_entries(self.opts@), key@) is Some,
    {
        find_text(&self.opts, key).is_some()
    }

    /// The value of the option `key`: the one given, or its default.
    pub fn get_opt(&self, key: &str) -> (s: String)
        ensures
            s@ == self.value_of(key@),
    {
        match find_text(&self.opts, key) {
            Some(i) => self.opts[i].1.clone(),
            None => match find_opt(&self.long_opts, key) {
                Some(i) => match &self.long_opts[i].1 {
                    Opt::Value { default, .. } => default.clone(),
                    _ => String::new(),
                },
                None => String::new(),
            },
        }
    }
}

fn text_is(a: &String, b: &str) -> (r: bool)
    ensures
        r == (a@ == b@),
{
    let t = b.to_owned();
    *a == t
}

/// The first index of `key` in `v`.
fn find_text(v: &Vec<(String, String)>, key: &str) -> (r: Option<usize>)
    ensures
        r matches Some(i) ==> index_from(text_entries(v@), key@, 0) == Some(i as int) && i < v@.len(),
        r is None ==> index_from(text_entries(v@), key@, 0) is None,
        r matches Some(i) ==> lookup(text_entries(v@), key@) == Some(v@[i as int].1@),
        r is None ==> lookup(text_entries(v@), key@) is None,
{
    let ghost e = text_entries(v@);
    let mut i: usize = 0;
    while i < v.len()
        invariant
            i <= v.len(),
            e == text_entries(v@),
            index_from(e, key@, 0) == index_from(e, key@, i as int),
            lookup(e, key@) == lookup_from(e, key@, i as int),
        decreases v.len() - i,
    {
        if text_is(&v[i].0, key) {
            return Some(i);
        }
        i += 1;
    }
    None
}

/// The first index of `key` in `v`.
fn find_opt(v: &Vec<(String, Opt)>, key: &str) -> (r: Option<usize>)
    ensures
        r matches Some(i) ==> index_from(opt_entries(v@), key@, 0) == Some(i as int) && i < v@.len(),
        r is None ==> index_from(opt_entries(v@), key@, 0) is None,
        r matches Some(i) ==> lookup(opt_entries(v@), key@) == Some(v@[i as int].1),
        r is None ==> lookup(opt_entries(v@), key@) is None,
{
    let ghost e = opt_entries(v@);
    let mut i: usize = 0;
    while i < v.len()
        invariant
            i <= v.len(),
            e == opt_entries(v@),
            index_from(e, key@, 0) == index_from(e, key@, i as int),
            lookup(e, key@) == lookup_from(e, key@, i as int),
        decreases v.len() - i,
    {
        if text_is(&v[i].0, key) {
            return Some(i);
        }
        i += 1;
    }
    None
}

/// Stores `opt` under `key`.
fn insert_opt(v: &mut Vec<(String, Opt)>, key: String, opt: Opt)
    ensures
        opt_entries(final(v)@) == inserted(opt_entries(old(v)@), key@, opt),
{
    match find_opt(v, key.as_str()) {
        Some(i) => {
            v.set(i, (key, opt));
            assert(opt_entries(v@) =~= opt_entries(old(v)@).update(i as int, (key@, opt)));
        },
        None => {
            let ghost k = key@;
            v.push((key, opt));
            assert(opt_entries(v@) =~= opt_entries(old(v)@).push((k, opt)));
        },
    }
}

/// Stores `value` under `key`.
fn insert_text(v: &mut Vec<(String, String)>, key: String, value: String)
    ensures
        text_entries(final(v)@) == inserted(text_entries(old(v)@), key@, value@),
{
    match find_text(v, key.as_str()) {
        Some(i) => {
            let ghost kv = (key@, value@);
            v.set(i, (key, value));
            assert(text_entries(v@) =~= text_entries(old(v)@).update(i as int, kv));
        },
        None => {
            let ghost kv = (key@, value@);
            v.push((key, value));
            assert(text_entries(v@) =~= text_entries(old(v)@).push(kv));
        },
    }
}

/// An option that takes a value came last, without one; it holds the long name.
#[derive(Debug, PartialEq, Eq)]
pub struct MissingValue(pub String);

/// What parsing has found so far.
pub struct Scan {
    pub opts: Seq<(Seq<char>, Seq<char>)>,
    pub params: Seq<Seq<char>>,
    pub command: Seq<char>,
    /// the index of the argument taken as the value of the last option, or 0
    pub skip: int,
}

/// Records the option `opt` found at `pos`: a flag with an empty value, an
/// option with the next argument as its value.
pub open spec fn matched(opt: Opt, opts: Seq<(Seq<char>, Seq<char>)>, pos: int, args: Seq<Seq<char>>) -> Result<
    (Seq<(Seq<char>, Seq<char>)>, int),
    Seq<char>,
> {
    match opt {
        Opt::Flag { long_name, .. } => Ok((inserted(opts, long_name@, Seq::empty()), 0)),
        Opt::Value { long_name, .. } => if pos + 1 < args.len() {
            Ok((inserted(opts, long_name@, args[pos + 1]), pos + 1))
        } else {
            Err(long_name@)
        },
    }
}

pub open spec fn with_match(s: Scan, r: Result<(Seq<(Seq<char>, Seq<char>)>, int), Seq<char>>) -> Result<
    Scan,
    Seq<char>,
> {
    match r {
        Ok((opts, skip)) => Ok(Scan { opts, skip, ..s }),
        Err(e) => Err(e),
    }
}

/// The short options named by the characters of `name` from `j` on.
pub open spec fn cluster(
    shorts: Seq<(Seq<char>, Opt)>,
    name: Seq<char>,
    j: int,
    s: Scan,
    pos: int,
    args: Seq<Seq<char>>,
) -> Result<Scan, Seq<char>>
    decreases name.len() - j,
{
    if j < 0 || j >= name.len() {
        Ok(s)
    } else {
        match lookup(shorts, seq![name[j]]) {
            Some(opt) => match with_match(s, matched(opt, s.opts, pos, args)) {
                Ok(s1) => cluster(shorts, name, j + 1, s1, pos, args),
                Err(e) => Err(e),
            },
            None => cluster(shorts, name, j + 1, s, pos, args),
        }
    }
}

/// `a` from index `i` on, without leading dashes.
pub open spec fn trim_from(a: Seq<char>, i: int) -> Seq<char>
    decreases a.len() - i,
{
    if 0 <= i < a.len() && a[i] == '-' {
        trim_from(a, i + 1)
    } else if 0 <= i <= a.len() {
        a.subrange(i, a.len() as int)
    } else {
        Seq::empty()
    }
}

/// The arguments from `pos` on: `--name` a long option, `-abc` short ones,
/// anything else a parameter, but for the command name and an option's value.
pub open spec fn scan_args(
    shorts: Seq<(Seq<char>, Opt)>,
    longs: Seq<(Seq<char>, Opt)>,
    args: Seq<Seq<char>>,
    pos: int,
    s: Scan,
) -> Result<Scan, Seq<char>>
    decreases args.len() - pos,
{
    if pos < 0 || pos >= args.len() {
        Ok(s)
    } else {
        let arg = args[pos];
        let name = trim_from(arg, 0);
        let next = if arg.len() >= 2 && arg[0] == '-' && arg[1] == '-' {
            match lookup(longs, name) {
                Some(opt) => with_match(s, matched(opt, s.opts, pos, args)),
                None => Ok(s),
            }
        } else if arg.len() >= 1 && arg[0] == '-' {
            cluster(shorts, name, 0, s, pos, args)
        } else if pos > 0 && pos != s.skip {
            Ok(Scan { params: s.params.push(arg), ..s })
        } else {
            Ok(Scan { command: arg, ..s })
        };
        match next {
            Ok(s1) => scan_args(shorts, longs, args, pos + 1, s1),
            Err(e) => Err(e),
        }
    }
}

/// The flag with the short name `short` and the long name `long`.
pub open spec fn is_flag(o: Opt, short: Seq<char>, long: Seq<char>) -> bool {
    o is Flag && o.short() == short && o.long() == long
}

/// The five standard flags in order, keyed by long (`by_long`) or short name:
/// `h` help, `v` version, `V` verbose, `d` debug, `t` trace.
pub open spec fn standard_entries(e: Seq<(Seq<char>, Opt)>, by_long: bool) -> bool {
    let names = seq![("h"@, "help"@), ("v"@, "version"@), ("V"@, "verbose"@), ("d"@, "debug"@), ("t"@, "trace"@)];
    &&& e.len() == 5
    &&& forall|i: int|
        0 <= i < 5 ==> is_flag(#[trigger] e[i].1, names[i].0, names[i].1) && e[i].0 == (if by_long {
            names[i].1
        } else {
            names[i].0
        })
}

/// The options a parser knows, by long and by short name.
pub struct Parser {
    pub long_opts: Vec<(String, Opt)>,
    pub short_opts: Vec<(String, Opt)>,
}

fn flag(short_name: &str, long_name: &str, description: &str) -> (r: Opt)
    ensures
        r is Flag,
        r.short() == short_name@,
        r.long() == long_name@,
{
    Opt::Flag {
        short_name: short_name.to_owned(),
        long_name: long_name.to_owned(),
        description: description.to_owned(),
    }
}

/// The text from index `i` of `cs` on.
fn rest_of(cs: &Vec<char>, i: usize) -> (r: String)
    requires
        i <= cs@.len(),
    ensures
        r@ == cs@.subrange(i as int, cs@.len() as int),
{
    let mut r = String::new();
    let mut j = i;
    while j < cs.len()
        invariant
            i <= j <= cs@.len(),
            r@ == cs@.subrange(i as int, j as int),
        decreases cs.len() - j,
    {
        crate::text::push_char(&mut r, cs[j]);
        j += 1;
        assert(r@ =~= cs@.subrange(i as int, j as int));
    }
    r
}

impl Parser {
    /// A parser that knows the flags help, version, verbose, debug and trace.
    pub fn new() -> (r: Self)
        ensures
            r.long_opts@.len() == 5,
            r.short_opts@.len() == 5,
            standard_entries(opt_entries(r.long_opts@), true),
            standard_entries(opt_entries(r.short_opts@), false),
            keys_distinct(opt_entries(r.long_opts@)),
            keys_distinct(opt_entries(r.short_opts@)),
    {
        let mut p = Parser { long_opts: Vec::new(), short_opts: Vec::new() };
        assert(opt_entries(p.long_opts@) =~= Seq::empty());
        assert(opt_entries(p.short_opts@) =~= Seq::empty());
        p.push_standard(flag("h", "help", "Print command usage and exit"));
        p.push_standard(flag("v", "version", "Print command version and exit"));
        p.push_standard(flag("V", "verbose", "Enable verbose output."));
        p.push_standard(flag("d", "debug", "Enable debug output."));
        p.push_standard(flag("t", "trace", "Enable trace output."));
        assert(opt_entries(p.long_opts@).len() == p.long_opts@.len());
        assert(opt_entries(p.short_opts@).len() == p.short_opts@.len());
        proof {
            reveal_strlit("h");
            reveal_strlit("v");
            reveal_strlit("V");
            reveal_strlit("d");
            reveal_strlit("t");
            reveal_strlit("help");
            reveal_strlit("version");
            reveal_strlit("verbose");
            reveal_strlit("debug");
            reveal_strlit("trace");
            let names = seq!["help"@, "version"@, "verbose"@, "debug"@, "trace"@];
            let shorts = seq!["h"@, "v"@, "V"@, "d"@, "t"@];
            assert(forall|a: int, b: int| 0 <= a < b < 5 ==> names[a] != names[b]) by {
                assert(names[0][0] == 'h' && names[1][0] == 'v' && names[2][0] == 'v' && names[3][0] == 'd' && names[4][0] == 't');
                assert(names[1][3] == 's' && names[2][3] == 'b');
            }
            assert(forall|a: int, b: int| 0 <= a < b < 5 ==> shorts[a][0] != shorts[b][0]);
        }
        p
    }

    fn push_standard(&mut self, opt: Opt)
        ensures
            opt_entries(final(self).long_opts@) == opt_entries(old(self).long_opts@).push(
                (opt.long(), opt),
            ),
            opt_entries(final(self).short_opts@) == opt_entries(old(self).short_opts@).push(
                (opt.short(), opt),
            ),
    {
        let (short, long) = match &opt {
            Opt::Flag { short_name, long_name, .. } => (short_name.clone(), long_name.clone()),
            Opt::Value { short_name, long_name, .. } => (short_name.clone(), long_name.clone()),
        };
        let copy = opt.duplicate();
        let ghost o = opt;
        let ghost old_long = self.long_opts@;
        let ghost old_short = self.short_opts@;
        self.long_opts.push((long, opt));
        self.short_opts.push((short, copy));
        assert(opt_entries(self.long_opts@) =~= opt_entries(old_long).push((o.long(), o)));
        assert(opt_entries(self.short_opts@) =~= opt_entries(old_short).push((o.short(), o)));
    }

    /// Registers `opt` under its long and its short name, replacing an option
    /// of the same name, and hands it back.
    pub fn add_opt(&mut self, opt: Opt) -> (r: Opt)
        ensures
            r == opt,
            opt_entries(final(self).long_opts@) == inserted(
                opt_entries(old(self).long_opts@),
                opt.long(),
                opt,
            ),
            opt_entries(final(self).short_opts@) == inserted(
                opt_entries(old(self).short_opts@),
                opt.short(),
                opt,
            ),
            keys_distinct(opt_entries(old(self).long_opts@)) ==> keys_distinct(
                opt_entries(final(self).long_opts@),
            ),
            keys_distinct(opt_entries(old(self).short_opts@)) ==> keys_distinct(
                opt_entries(final(self).short_opts@),
            ),
    {
        proof {
            if keys_distinct(opt_entries(self.long_opts@)) {
                lemma_inserted_distinct(opt_entries(self.long_opts@), opt.long(), opt);
            }
            if keys_distinct(opt_entries(self.short_opts@)) {
                lemma_inserted_distinct(opt_entries(self.short_opts@), opt.short(), opt);
            }
        }
        let (short, long) = match &opt {
            Opt::Flag { short_name, long_name, .. } => (short_name.clone(), long_name.clone()),
            Opt::Value { short_name, long_name, .. } => (short_name.clone(), long_name.clone()),
        };
        insert_opt(&mut self.long_opts, long, opt.duplicate());
        insert_opt(&mut self.short_opts, short, opt.duplicate());
        opt
    }

    /// Records `opt` found at `pos` in `h`; returns the index of the argument
    /// taken as its value, or 0 for a flag.
    fn handle_match(&self, opt: &Opt, h: &mut Vec<(String, String)>, pos: usize, args: &Vec<String>) -> (r:
        Result<usize, MissingValue>)
        requires
            pos < args@.len(),
        ensures
            match matched(*opt, text_entries(old(h)@), pos as int, texts(args@)) {
                Ok((opts, skip)) => r == Ok::<usize, MissingValue>(skip as usize) && text_entries(
                    final(h)@,
                ) == opts,
                Err(name) => r matches Err(e) && e.0@ == name,
            },
    {
        match opt {
            Opt::Flag { long_name, .. } => {
                insert_text(h, long_name.clone(), String::new());
                Ok(0)
            },
            Opt::Value { long_name, .. } => {
                if pos < args.len() - 1 {
                    insert_text(h, long_name.clone(), args[pos + 1].clone());
                    Ok(pos + 1)
                } else {
                    Err(MissingValue(long_name.clone()))
                }
            },
        }
    }

    /// Sorts the arguments into options, parameters and the command name.
    pub fn parse(&self, args: Vec<String>) -> (r: Result<ParserResult, MissingValue>)
        ensures
            match scan_args(
                opt_entries(self.short_opts@),
                opt_entries(self.long_opts@),
                texts(args@),
                0,
                Scan { opts: Seq::empty(), params: Seq::empty(), command: Seq::empty(), skip: 0 },
            ) {
                Ok(s) => r matches Ok(res) && text_entries(res.opts@) == s.opts && texts(
                    res.params@,
                ) == s.params && res.command_name@ == s.command && res.long_opts@
                    == self.long_opts@,
                Err(name) => r matches Err(e) && e.0@ == name,
            },
    {
        let ghost shorts = opt_entries(self.short_opts@);
        let ghost longs = opt_entries(self.long_opts@);
        let ghost a = texts(args@);
        let mut h: Vec<(String, String)> = Vec::new();
        let mut p: Vec<String> = Vec::new();
        let mut c = String::new();
        let mut skip_pos: usize = 0;
        let mut pos: usize = 0;
        proof {
            assert(text_entries(h@) =~= Seq::empty());
            assert(texts(p@) =~= Seq::empty());
        }
        while pos < args.len()
            invariant
                pos <= args.len(),
                a == texts(args@),
                shorts == opt_entries(self.short_opts@),
                longs == opt_entries(self.long_opts@),
                scan_args(
                    shorts,
                    longs,
                    a,
                    0,
                    Scan { opts: Seq::empty(), params: Seq::empty(), command: Seq::empty(), skip: 0 },
                ) == scan_args(
                    shorts,
                    longs,
                    a,
                    pos as int,
                    Scan { opts: text_entries(h@), params: texts(p@), command: c@, skip: skip_pos as int },
                ),
            decreases args.len() - pos,
        {
            let arg = &args[pos];
            let cs = chars_of(arg.as_str());
            let mut i: usize = 0;
            while i < cs.len() && cs[i] == '-'
                invariant
                    i <= cs@.len(),
                    cs@ == arg@,
                    trim_from(arg@, 0) == trim_from(arg@, i as int),
                decreases cs.len() - i,
            {
                i += 1;
            }
            let name = rest_of(&cs, i);
            assert(name@ == trim_from(arg@, 0));
            let ghost s0 = Scan { opts: text_entries(h@), params: texts(p@), command: c@, skip: skip_pos as int };
            if cs.len() >= 2 && cs[0] == '-' && cs[1] == '-' {
                match find_opt(&self.long_opts, name.as_str()) {
                    Some(k) => {
                        skip_pos = self.handle_match(&self.long_opts[k].1, &mut h, pos, &args)?;
                    },
                    None => {},
                }
            } else if cs.len() >= 1 && cs[0] == '-' {
                let ncs = chars_of(name.as_str());
                let mut j: usize = 0;
                while j < ncs.len()
                    invariant
                        j <= ncs@.len(),
                        ncs@ == name@,
                        pos < args@.len(),
                        a == texts(args@),
                        name@ == trim_from(args@[pos as int]@, 0),
                        !(args@[pos as int]@.len() >= 2 && args@[pos as int]@[0] == '-'
                            && args@[pos as int]@[1] == '-'),
                        args@[pos as int]@.len() >= 1 && args@[pos as int]@[0] == '-',
                        longs == opt_entries(self.long_opts@),
                        scan_args(
                            shorts,
                            longs,
                            a,
                            0,
                            Scan { opts: Seq::empty(), params: Seq::empty(), command: Seq::empty(), skip: 0 },
                        ) == scan_args(shorts, longs, a, pos as int, s0),
                        shorts == opt_entries(self.short_opts@),
                        cluster(shorts, name@, 0, s0, pos as int, a) == cluster(
                            shorts,
                            name@,
                            j as int,
                            Scan { opts: text_entries(h@), params: texts(p@), command: c@, skip: skip_pos as int },
                            pos as int,
                            a,
                        ),
                    decreases ncs.len() - j,
                {
                    let mut key = String::new();
                    crate::text::push_char(&mut key, ncs[j]);
                    assert(key@ =~= seq![name@[j as int]]);
                    match find_opt(&self.short_opts, key.as_str()) {
                        Some(k) => {
                            skip_pos = self.handle_match(&self.short_opts[k].1, &mut h, pos, &args)?;
                        },
                        None => {},
                    }
                    j += 1;
                }
            } else if pos > 0 && pos != skip_pos {
                p.push(arg.clone());
                proof {
                    assert(texts(p@) =~= s0.params.push(arg@));
                }
            } else {
                c = arg.clone();
            }
            pos += 1;
        }
        let mut long_opts: Vec<(String, Opt)> = Vec::new();
        let mut k: usize = 0;
        while k < self.long_opts.len()
            invariant
                k <= self.long_opts@.len(),
                long_opts@ == self.long_opts@.subrange(0, k as int),
            decreases self.long_opts.len() - k,
        {
            let entry = (self.long_opts[k].0.clone(), self.long_opts[k].1.duplicate());
            long_opts.push(entry);
            k += 1;
            assert(long_opts@ =~= self.long_opts@.subrange(0, k as int));
        }
        assert(long_opts@ =~= self.long_opts@);
        Ok(ParserResult { command_name: c, opts: h, params: p, long_opts })
    }
}

} // verus!
