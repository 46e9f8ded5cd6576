//! The per-user configuration: branch-name prefix and the optional list of
//! seed paths, with the string-keyed `get`/`set` surface of the CLI and the
//! comma-joined list form used to show and read `copy_paths`.

use vstd::prelude::*;
use crate::errors::Error;
use crate::text::is_space;
use crate::text::lemma_trim_back_take;
use crate::text::lemma_trim_front_skip;
use crate::text::str_eq;
use crate::text::trim_back;
use crate::text::trim_front;
use vstd::string::*;

verus! {

/// The user configuration. An absent field means "use the default".
pub struct Config {
    /// Prefix prepended to the work-tree name to derive the branch name;
    /// `"sprout/"` when absent.
    pub branch_prefix: Option<String>,
    /// Repository-relative paths seeded into every new work-tree; absent or
    /// empty means no seeding.
    pub copy_paths: Option<Vec<String>>,
}

/// The mathematical shape of a configuration.
pub ghost struct ConfigModel {
    pub branch_prefix: Option<Seq<char>>,
    pub copy_paths: Option<Seq<Seq<char>>>,
}

/// The views of a sequence of strings.
pub open spec fn views_of(l: Seq<String>) -> Seq<Seq<char>> {
    Seq::new(l.len(), |i: int| l[i]@)
}

impl View for Config {
    type V = ConfigModel;

    open spec fn view(&self) -> ConfigModel {
        ConfigModel {
            branch_prefix: match self.branch_prefix {
                Some(p) => Some(p@),
                None => None,
            },
            copy_paths: match self.copy_paths {
                Some(l) => Some(views_of(l@)),
                None => None,
            },
        }
    }
}

impl Config {
    /// The configuration used when no file exists: all defaults.
    pub fn new() -> (c: Config)
        ensures
            c@.branch_prefix is None,
            c@.copy_paths is None,
    {
        Config { branch_prefix: None, copy_paths: None }
    }
}

/// An item as it survives a round trip through the comma-joined form:
/// nonempty, free of commas, and without whitespace at either end.
pub open spec fn is_clean_item(p: Seq<char>) -> bool {
    &&& p.len() > 0
    &&& forall|k: int| 0 <= k < p.len() ==> p[k] != ','
    &&& !is_space(p[0])
    &&& !is_space(p.last())
}

/// An item with its surrounding whitespace removed.
pub open spec fn trim_item(p: Seq<char>) -> Seq<char> {
    trim_front(trim_back(p, |c: char| is_space(c)), |c: char| is_space(c))
}

/// The comma-joined form of a list of items.
pub open spec fn join_spec(l: Seq<Seq<char>>) -> Seq<char>
    decreases l.len(),
{
    if l.len() == 0 {
        Seq::empty()
    } else if l.len() == 1 {
        l[0]
    } else {
        join_spec(l.drop_last()) + seq![','] + l.last()
    }
}

/// Splitting on commas with an accumulated current item: each piece is
/// trimmed, and blank pieces are dropped.
pub open spec fn split_acc(s: Seq<char>, cur: Seq<char>) -> Seq<Seq<char>>
    decreases s.len(),
{
    if s.len() == 0 {
        emit(cur)
    } else if s[0] == ',' {
        emit(cur) + split_acc(s.drop_first(), Seq::empty())
    } else {
        split_acc(s.drop_first(), cur.push(s[0]))
    }
}

/// The trimmed piece, unless it is blank.
pub open spec fn emit(cur: Seq<char>) -> Seq<Seq<char>> {
    if trim_item(cur).len() == 0 {
        Seq::empty()
    } else {
        seq![trim_item(cur)]
    }
}

/// The list a comma-joined value denotes.
pub open spec fn split_spec(s: Seq<char>) -> Seq<Seq<char>> {
    split_acc(s, Seq::empty())
}

/// What `config get` answers for a key: the stored prefix (empty when
/// absent), the comma-joined seed paths, or nothing for an unknown key.
pub open spec fn get_spec(c: ConfigModel, key: Seq<char>) -> Option<Seq<char>> {
    if key == "branch_prefix"@ {
        Some(
            match c.branch_prefix {
                Some(p) => p,
                None => Seq::empty(),
            },
        )
    } else if key == "copy_paths"@ {
        Some(
            join_spec(
                match c.copy_paths {
                    Some(l) => l,
                    None => Seq::empty(),
                },
            ),
        )
    } else {
        None
    }
}

/// What `config set` makes of a key and value: a blank `copy_paths` value
/// clears the list back to "absent"; an unknown key changes nothing.
pub open spec fn set_spec(c: ConfigModel, key: Seq<char>, value: Seq<char>) -> Option<ConfigModel> {
    if key == "branch_prefix"@ {
        Some(ConfigModel { branch_prefix: Some(value), ..c })
    } else if key == "copy_paths"@ {
        Some(
            ConfigModel {
                copy_paths: if split_spec(value).len() == 0 {
                    None
                } else {
                    Some(split_spec(value))
                },
                ..c
            },
        )
    } else {
        None
    }
}

/// Executable twin of `is_space`.
fn is_space_char(c: char) -> (r: bool)
    ensures
        r == is_space(c),
{
    c == ' ' || c == '\t' || c == '\n' || c == '\r'
}

/// The piece of `s` between the character positions `start` and `end`, with
/// surrounding whitespace removed; `None` when nothing but whitespace is
/// there.
fn trimmed_piece(s: &str, start: usize, end: usize) -> (r: Option<String>)
    requires
        start <= end <= s@.len(),
    ensures
        match r {
            Some(p) => trim_item(s@.subrange(start as int, end as int)) == p@ && p@.len() > 0,
            None => trim_item(s@.subrange(start as int, end as int)).len() == 0,
        },
{
    let ghost piece = s@.subrange(start as int, end as int);
    let mut hi: usize = end;
    while hi > start && is_space_char(s.get_char(hi - 1))
        invariant
            start <= hi <= end <= s@.len(),
            piece == s@.subrange(start as int, end as int),
            forall|k: int| hi <= k < end ==> is_space(s@[k]),
        decreases hi,
    {
        hi = hi - 1;
    }
    proof {
        assert forall|k: int| (hi - start) <= k < piece.len() implies is_space(piece[k]) by {
            assert(piece[k] == s@[start + k]);
        }
        if hi > start {
            assert(piece[hi - start - 1] == s@[hi - 1]);
        }
        lemma_trim_back_take(piece, |c: char| is_space(c), hi - start);
    }
    let mut lo: usize = start;
    while lo < hi && is_space_char(s.get_char(lo))
        invariant
            start <= lo <= hi <= s@.len(),
            piece == s@.subrange(start as int, end as int),
            forall|k: int| start <= k < lo ==> is_space(s@[k]),
        decreases hi - lo,
    {
        lo = lo + 1;
    }
    proof {
        let t = piece.take(hi - start);
        assert forall|k: int| 0 <= k < (lo - start) implies is_space(t[k]) by {
            assert(t[k] == s@[start + k]);
        }
        if lo < hi {
            assert(t[lo - start] == s@[lo as int]);
        }
        lemma_trim_front_skip(t, |c: char| is_space(c), lo - start);
        assert(trim_item(piece) == t.skip(lo - start));
        assert(t.skip(lo - start) =~= s@.subrange(lo as int, hi as int));
    }
    if lo < hi {
        Some(String::from_str(s.substring_char(lo, hi)))
    } else {
        None
    }
}

/// Splits a `copy_paths` value on commas, trimming each piece and dropping
/// blank pieces.
pub fn split_paths(s: &str) -> (r: Vec<String>)
    ensures
        views_of(r@) == split_spec(s@),
{
    let n = s.unicode_len();
    let mut out: Vec<String> = Vec::new();
    let mut start: usize = 0;
    let mut i: usize = 0;
    proof {
        assert(s@.skip(0) =~= s@);
        assert(s@.subrange(0, 0) =~= Seq::<char>::empty());
        assert(views_of(out@) =~= Seq::<Seq<char>>::empty());
        assert(views_of(out@) + split_acc(s@.skip(0), s@.subrange(0, 0)) =~= split_spec(s@));
    }
    while i < n
        invariant
            start <= i <= n,
            n == s@.len(),
            split_spec(s@) == views_of(out@) + split_acc(
                s@.skip(i as int),
                s@.subrange(start as int, i as int),
            ),
        decreases n - i,
    {
        let ghost cur = s@.subrange(start as int, i as int);
        if s.get_char(i) == ',' {
            proof {
                assert(s@.skip(i as int)[0] == s@[i as int]);
                assert(s@.skip(i as int).drop_first() =~= s@.skip(i + 1));
                assert(split_acc(s@.skip(i as int), cur) == emit(cur) + split_acc(
                    s@.skip(i + 1),
                    Seq::empty(),
                ));
            }
            match trimmed_piece(s, start, i) {
                Some(p) => {
                    let ghost pre = out@;
                    out.push(p);
                    proof {
                        assert(views_of(out@) =~= views_of(pre).push(p@));
                        assert(emit(cur) == seq![p@]);
                        assert(views_of(pre).push(p@) + split_acc(s@.skip(i + 1), Seq::empty())
                            =~= views_of(pre) + (emit(cur) + split_acc(
                            s@.skip(i + 1),
                            Seq::empty(),
                        )));
                    }
                },
                None => {
                    proof {
                        assert(emit(cur) =~= Seq::<Seq<char>>::empty());
                        assert(views_of(out@) + split_acc(s@.skip(i + 1), Seq::empty())
                            =~= views_of(out@) + (emit(cur) + split_acc(
                            s@.skip(i + 1),
                            Seq::empty(),
                        )));
                    }
                },
            }
            start = i + 1;
            proof {
                assert(s@.subrange(start as int, i + 1) =~= Seq::<char>::empty());
            }
        } else {
            proof {
                assert(s@.skip(i as int)[0] == s@[i as int]);
                assert(s@.skip(i as int).drop_first() =~= s@.skip(i + 1));
                assert(cur.push(s@[i as int]) =~= s@.subrange(start as int, i + 1));
                assert(split_acc(s@.skip(i as int), cur) == split_acc(
                    s@.skip(i + 1),
                    s@.subrange(start as int, i + 1),
                ));
            }
        }
        i = i + 1;
    }
    let ghost cur = s@.subrange(start as int, n as int);
    proof {
        assert(s@.skip(n as int) =~= Seq::<char>::empty());
        assert(split_acc(s@.skip(n as int), cur) == emit(cur));
    }
    match trimmed_piece(s, start, n) {
        Some(p) => {
            let ghost pre = out@;
            out.push(p);
            proof {
                assert(views_of(out@) =~= views_of(pre).push(p@));
                assert(emit(cur) == seq![p@]);
                assert(views_of(pre).push(p@) =~= views_of(pre) + emit(cur));
            }
        },
        None => {
            proof {
                assert(emit(cur) =~= Seq::<Seq<char>>::empty());
                assert(views_of(out@) =~= views_of(out@) + emit(cur));
            }
        },
    }
    out
}

/// Joins a list of seed paths into the comma-joined display form.
pub fn join_paths(l: &Vec<String>) -> (r: String)
    ensures
        r@ == join_spec(views_of(l@)),
{
    let mut r = String::new();
    let n = l.len();
    let mut i: usize = 0;
    proof {
        assert(views_of(l@).take(0) =~= Seq::<Seq<char>>::empty());
    }
    while i < n
        invariant
            i <= n,
            n == l@.len(),
            r@ == join_spec(views_of(l@).take(i as int)),
        decreases n - i,
    {
        if i > 0 {
            r.append(",");
        }
        r.append(l[i].as_str());
        proof {
            reveal_strlit(",");
            assert(","@ =~= seq![',']);
            let v = views_of(l@);
            assert(v.take(i + 1).drop_last() =~= v.take(i as int));
            assert(v.take(i + 1).last() == v[i as int]);
            if i == 0 {
                assert(join_spec(v.take(1)) == v[0]);
                assert(r@ =~= v[0]);
            } else {
                assert(join_spec(v.take(i + 1)) == join_spec(v.take(i as int)) + seq![','] + v[
                    i as int
                ]);
            }
        }
        i = i + 1;
    }
    proof {
        assert(views_of(l@).take(n as int) =~= views_of(l@));
    }
    r
}

/// Answers `config get <key>` from a loaded configuration.
pub fn config_get(c: &Config, key: &str) -> (r: Result<String, Error>)
    ensures
        match r {
            Ok(v) => get_spec(c@, key@) == Some(v@),
            Err(e) => {
                &&& get_spec(c@, key@) is None
                &&& (e matches Error::UnknownKeyError { key: k } && k@ == key@)
            },
        },
{
    if str_eq(key, "branch_prefix") {
        match &c.branch_prefix {
            Some(p) => Ok(p.clone()),
            None => Ok(String::new()),
        }
    } else if str_eq(key, "copy_paths") {
        match &c.copy_paths {
            Some(l) => Ok(join_paths(l)),
            None => {
                proof {
                    assert(join_spec(Seq::<Seq<char>>::empty()) == Seq::<char>::empty());
                }
                Ok(String::new())
            },
        }
    } else {
        Err(Error::UnknownKeyError { key: String::from_str(key) })
    }
}

/// Applies `config set <key> <value>` to a loaded configuration; the caller
/// persists the result. Setting `copy_paths` to a blank list clears it.
pub fn config_set(c: &mut Config, key: &str, value: &str) -> (r: Result<(), Error>)
    ensures
        match r {
            Ok(()) => set_spec(old(c)@, key@, value@) == Some(final(c)@),
            Err(e) => {
                &&& set_spec(old(c)@, key@, value@) is None
                &&& final(c)@ == old(c)@
                &&& (e matches Error::UnknownKeyError { key: k } && k@ == key@)
            },
        },
{
    if str_eq(key, "branch_prefix") {
        c.branch_prefix = Some(String::from_str(value));
        Ok(())
    } else if str_eq(key, "copy_paths") {
        let l = split_paths(value);
        if l.len() == 0 {
            proof {
                assert(split_spec(value@).len() == views_of(l@).len());
            }
            c.copy_paths = None;
        } else {
            proof {
                assert(split_spec(value@).len() == views_of(l@).len());
            }
            c.copy_paths = Some(l);
        }
        Ok(())
    } else {
        Err(Error::UnknownKeyError { key: String::from_str(key) })
    }
}

pub proof fn lemma_trim_clean(p: Seq<char>)
    requires
        p.len() > 0,
        !is_space(p[0]),
        !is_space(p.last()),
    ensures
        trim_item(p) == p,
{
}

proof fn lemma_split_acc_clean(x: Seq<char>, rest: Seq<char>, cur: Seq<char>)
    requires
        forall|k: int| 0 <= k < x.len() ==> x[k] != ',',
    ensures
        split_acc(x + rest, cur) == split_acc(rest, cur + x),
    decreases x.len(),
{
    if x.len() == 0 {
        assert(x + rest =~= rest);
        assert(cur + x =~= cur);
    } else {
        let s = x + rest;
        assert(s[0] == x[0]);
        assert(s.drop_first() =~= x.drop_first() + rest);
        assert forall|k: int| 0 <= k < x.drop_first().len() implies x.drop_first()[k] != ',' by {
            assert(x.drop_first()[k] == x[k + 1]);
        }
        lemma_split_acc_clean(x.drop_first(), rest, cur.push(x[0]));
        assert(cur.push(x[0]) + x.drop_first() =~= cur + x);
    }
}

proof fn lemma_join_cons(l: Seq<Seq<char>>)
    requires
        l.len() >= 2,
    ensures
        join_spec(l) == l[0] + seq![','] + join_spec(l.drop_first()),
    decreases l.len(),
{
    if l.len() == 2 {
        assert(l.drop_last() =~= seq![l[0]]);
        assert(join_spec(seq![l[0]]) == l[0]);
        assert(l.drop_first() =~= seq![l[1]]);
        assert(join_spec(seq![l[1]]) == l[1]);
        assert(l.last() == l[1]);
    } else {
        let m = l.drop_last();
        lemma_join_cons(m);
        assert(m[0] == l[0]);
        assert(m.drop_first() =~= l.drop_first().drop_last());
        assert(l.drop_first().len() >= 2);
        assert(l.drop_first().last() == l.last());
        assert(join_spec(l.drop_first()) == join_spec(l.drop_first().drop_last()) + seq![',']
            + l.last());
        assert(join_spec(l) == (l[0] + seq![','] + join_spec(l.drop_first().drop_last())) + seq![
            ','
        ] + l.last());
        assert((l[0] + seq![','] + join_spec(l.drop_first().drop_last())) + seq![','] + l.last()
            =~= l[0] + seq![','] + (join_spec(l.drop_first().drop_last()) + seq![','] + l.last()));
    }
}

/// Round trip of the comma-joined form: a list whose items are nonempty,
/// comma-free and trimmed is recovered exactly when its joined display form
/// is split again. (An item such as `"a,b"` would be read back as two.)
pub proof fn lemma_split_join_roundtrip(l: Seq<Seq<char>>)
    requires
        forall|i: int| 0 <= i < l.len() ==> is_clean_item(#[trigger] l[i]),
    ensures
        split_spec(join_spec(l)) == l,
    decreases l.len(),
{
    if l.len() == 0 {
        assert(split_spec(join_spec(l)) =~= l);
    } else if l.len() == 1 {
        let x = l[0];
        lemma_split_acc_clean(x, Seq::empty(), Seq::empty());
        assert(x + Seq::<char>::empty() =~= x);
        assert(Seq::<char>::empty() + x =~= x);
        lemma_trim_clean(x);
        assert(emit(x) == seq![x]);
        assert(seq![x] =~= l);
    } else {
        lemma_join_cons(l);
        let x = l[0];
        let restj = seq![','] + join_spec(l.drop_first());
        assert(join_spec(l) =~= x + restj);
        lemma_split_acc_clean(x, restj, Seq::empty());
        assert(Seq::<char>::empty() + x =~= x);
        assert(restj[0] == ',');
        assert(restj.drop_first() =~= join_spec(l.drop_first()));
        lemma_trim_clean(x);
        assert(emit(x) == seq![x]);
        assert forall|i: int| 0 <= i < l.drop_first().len() implies is_clean_item(
            #[trigger] l.drop_first()[i],
        ) by {
            assert(l.drop_first()[i] == l[i + 1]);
        }
        lemma_split_join_roundtrip(l.drop_first());
        assert(split_acc(restj, x) == seq![x] + split_spec(join_spec(l.drop_first())));
        assert(seq![x] + l.drop_first() =~= l);
    }
}

/// The outcome of a `config` command: either a value to show (`get`) or a
/// changed configuration to persist (`set`).
pub enum ConfigAction {
    Get { key: String },
    Put { key: String, value: String },
}

/// Dispatches a `config` command over a loaded configuration. `Get` leaves
/// it unchanged and yields the value to show; `Set` changes it and yields
/// nothing.
pub fn config_cmd(c: &mut Config, action: &ConfigAction) -> (r: Result<Option<String>, Error>)
    ensures
        match r {
            Ok(shown) => match action {
                ConfigAction::Get { key } => {
                    &&& final(c)@ == old(c)@
                    &&& (shown matches Some(v) && get_spec(old(c)@, key@) == Some(v@))
                },
                ConfigAction::Put { key, value } => {
                    &&& shown is None
                    &&& set_spec(old(c)@, key@, value@) == Some(final(c)@)
                },
            },
            Err(e) => {
                &&& final(c)@ == old(c)@
                &&& match action {
                    ConfigAction::Get { key } => {
                        &&& get_spec(old(c)@, key@) is None
                        &&& (e matches Error::UnknownKeyError { key: k } && k@ == key@)
                    },
                    ConfigAction::Put { key, value } => {
                        &&& set_spec(old(c)@, key@, value@) is None
                        &&& (e matches Error::UnknownKeyError { key: k } && k@ == key@)
                    },
                }
            },
        },
{
    match action {
        ConfigAction::Get { key } => match config_get(c, key.as_str()) {
            Ok(v) => Ok(Some(v)),
            Err(e) => Err(e),
        },
        ConfigAction::Put { key, value } => match config_set(c, key.as_str(), value.as_str()) {
            Ok(()) => Ok(None),
            Err(e) => Err(e),
        },
    }
}

} // verus!
