//! The `.oavc` configuration model.
use vstd::prelude::*;
use crate::text::{ascii_lower, chars_of, char_ascii_lower, eq_ignore_ascii_case, owned, str_eq};

verus! {

/// Name of the configuration file at the project root.
pub const CONFIG_FILE: &'static str = ".oavc";

/// Which generator scopes a run covers.
#[derive(Debug, Clone, Copy, PartialEq, Eq, Structural)]
pub enum Mode {
    Server,
    Client,
    Both,
}

/// The lower-case name of a mode, as it is written in `.oavc`.
pub open spec fn mode_name(m: Mode) -> Seq<char> {
    match m {
        Mode::Server => "server"@,
        Mode::Client => "client"@,
        Mode::Both => "both"@,
    }
}

impl Mode {
    pub fn as_str(&self) -> (s: &'static str)
        ensures
            s@ == mode_name(*self),
    {
        match self {
            Mode::Server => "server",
            Mode::Client => "client",
            Mode::Both => "both",
        }
    }
}

/// Which linter the lint phase runs.
#[derive(Debug, Clone, Copy, PartialEq, Eq, Structural)]
pub enum Linter {
    Spectral,
    Redocly,
    Off,
}

/// The lower-case name of a linter, as it is written in `.oavc`.
pub open spec fn linter_name(l: Linter) -> Seq<char> {
    match l {
        Linter::Spectral => "spectral"@,
        Linter::Redocly => "redocly"@,
        Linter::Off => "none"@,
    }
}

impl Linter {
    pub fn as_str(&self) -> (s: &'static str)
        ensures
            s@ == linter_name(*self),
    {
        match self {
            Linter::Spectral => "spectral",
            Linter::Redocly => "redocly",
            Linter::Off => "none",
        }
    }
}

/// How many generator/compile jobs run side by side.
#[derive(Debug, Clone, Copy, PartialEq, Eq, Structural)]
pub enum Jobs {
    Auto,
    Fixed(usize),
}

/// Why a `jobs` value was refused: it must be `"auto"` or a positive integer.
#[derive(Debug, Clone, Copy, PartialEq, Eq, Structural)]
pub enum JobsError {
    NotPositive,
    NotAuto,
}

/// The job count that `Jobs::resolve` settles on, given the parallelism that
/// the machine reports (`None` when it cannot tell).
pub open spec fn resolved_jobs(j: Jobs, available: Option<usize>) -> usize {
    match j {
        Jobs::Fixed(n) => n,
        Jobs::Auto => match available {
            Some(n) => if n < 4 {
                n
            } else {
                4
            },
            None => 1,
        },
    }
}

impl Jobs {
    /// The number of jobs to run: the fixed count, or for `Auto` the
    /// available parallelism capped at four (one when it is unknown).
    pub fn resolve(self, available: Option<usize>) -> (n: usize)
        ensures
            n == resolved_jobs(self, available),
    {
        match self {
            Jobs::Fixed(n) => n,
            Jobs::Auto => match available {
                Some(n) => if n < 4 {
                    n
                } else {
                    4
                },
                None => 1,
            },
        }
    }

    /// A `jobs` value given as an unsigned integer.
    pub fn from_unsigned(value: u64) -> (res: Result<Jobs, JobsError>)
        ensures
            value == 0 ==> res == Err::<Jobs, JobsError>(JobsError::NotPositive),
            value != 0 ==> res == Ok::<Jobs, JobsError>(Jobs::Fixed(value as usize)),
    {
        if value == 0 {
            return Err(JobsError::NotPositive);
        }
        Ok(Jobs::Fixed(value as usize))
    }

    /// A `jobs` value given as a signed integer.
    pub fn from_signed(value: i64) -> (res: Result<Jobs, JobsError>)
        ensures
            value <= 0 ==> res == Err::<Jobs, JobsError>(JobsError::NotPositive),
            value > 0 ==> res == Ok::<Jobs, JobsError>(Jobs::Fixed(value as usize)),
    {
        if value <= 0 {
            return Err(JobsError::NotPositive);
        }
        Ok(Jobs::Fixed(value as usize))
    }

    /// A `jobs` value given as a string: `auto` in any ASCII case.
    pub fn from_text(value: &str) -> (res: Result<Jobs, JobsError>)
        ensures
            eq_ignore_ascii_case(value@, "auto"@) ==> res == Ok::<Jobs, JobsError>(Jobs::Auto),
            !eq_ignore_ascii_case(value@, "auto"@) ==> res == Err::<Jobs, JobsError>(
                JobsError::NotAuto,
            ),
    {
        let v = chars_of(value);
        let a = chars_of("auto");
        if v.len() != a.len() {
            return Err(JobsError::NotAuto);
        }
        let mut i: usize = 0;
        while i < v.len()
            invariant
                v@ == value@,
                a@ == "auto"@,
                v.len() == a.len(),
                i <= v.len(),
                forall|k: int| 0 <= k < i ==> ascii_lower(#[trigger] v@[k]) == ascii_lower(a@[k]),
            decreases v.len() - i,
        {
            if char_ascii_lower(v[i]) != char_ascii_lower(a[i]) {
                return Err(JobsError::NotAuto);
            }
            i = i + 1;
        }
        Ok(Jobs::Auto)
    }
}

/// The value bound to an action in the `keys` table: one key or a list.
#[derive(Debug)]
pub enum StringOrVec {
    Single(String),
    Multiple(Vec<String>),
}

impl StringOrVec {
    pub fn into_vec(self) -> (res: Vec<String>)
        ensures
            match self {
                StringOrVec::Single(s) => res@ == seq![s],
                StringOrVec::Multiple(v) => res@ == v@,
            },
    {
        match self {
            StringOrVec::Single(s) => vec![s],
            StringOrVec::Multiple(v) => v,
        }
    }
}

/// The project configuration. The two tables keep their entries as pairs;
/// a key occurs at most once in each.
#[derive(Debug, Clone)]
pub struct Config {
    pub spec: Option<String>,
    pub mode: Mode,
    pub lint: bool,
    pub generate: bool,
    pub compile: bool,
    pub server_generators: Vec<String>,
    pub client_generators: Vec<String>,
    pub generator_overrides: Vec<(String, String)>,
    pub generator_image: String,
    pub redocly_image: String,
    pub linter: Linter,
    pub spectral_image: String,
    pub spectral_ruleset: String,
    pub spectral_fail_severity: String,
    pub manage_gitignore: bool,
    pub custom_generators_dir: Option<String>,
    pub docker_timeout: u64,
    pub search_depth: usize,
    pub jobs: Jobs,
    /// Action to key bindings, used by the terminal interface only.
    pub keys: Vec<(String, Vec<String>)>,
}

/// The value bound to `key` in a table of pairs, looked up from the front.
pub open spec fn lookup(table: Seq<(String, String)>, key: Seq<char>) -> Option<Seq<char>>
    decreases table.len(),
{
    if table.len() == 0 {
        None
    } else if table[0].0@ == key {
        Some(table[0].1@)
    } else {
        lookup(table.drop_first(), key)
    }
}

/// No key occurs twice in a table of pairs.
pub open spec fn keys_distinct(table: Seq<(String, String)>) -> bool {
    forall|i: int, j: int|
        0 <= i < j < table.len() ==> #[trigger] table[i].0@ != #[trigger] table[j].0@
}

/// No action occurs twice in a table of key bindings.
pub open spec fn actions_distinct(table: Seq<(String, Vec<String>)>) -> bool {
    forall|i: int, j: int|
        0 <= i < j < table.len() ==> #[trigger] table[i].0@ != #[trigger] table[j].0@
}

impl Config {
    /// Each of the two tables binds a key at most once, as the maps they
    /// stand for do.
    pub open spec fn tables_distinct(self) -> bool {
        keys_distinct(self.generator_overrides@) && actions_distinct(self.keys@)
    }
}

/// In a table without repeated keys, the value that [`lookup`] finds for a
/// key is the one its entry holds.
pub proof fn lemma_lookup_distinct(table: Seq<(String, String)>, i: int)
    requires
        keys_distinct(table),
        0 <= i < table.len(),
    ensures
        lookup(table, table[i].0@) == Some(table[i].1@),
    decreases i,
{
    if i > 0 {
        let rest = table.drop_first();
        assert(table[0].0@ != table[i].0@);
        assert forall|a: int, b: int| 0 <= a < b < rest.len() implies #[trigger] rest[a].0@ != #[trigger] rest[b].0@ by {
            assert(rest[a] == table[a + 1] && rest[b] == table[b + 1]);
        }
        assert(rest[i - 1] == table[i]);
        lemma_lookup_distinct(rest, i - 1);
    }
}

/// Binds `key` to `value` in `table`, as `HashMap::insert` does: an entry
/// for `key` has its value replaced, otherwise the pair is added.
pub fn insert_pair(table: &mut Vec<(String, String)>, key: String, value: String)
    requires
        keys_distinct(old(table)@),
    ensures
        keys_distinct(final(table)@),
        lookup(final(table)@, key@) == Some(value@),
        forall|k: Seq<char>| k != key@ ==> #[trigger] lookup(final(table)@, k) == lookup(old(table)@, k),
{
    let ghost t0 = table@;
    let mut i: usize = 0;
    while i < table.len()
        invariant
            i <= table.len(),
            table@ == t0,
            t0 == old(table)@,
            keys_distinct(t0),
            forall|j: int| 0 <= j < i ==> #[trigger] t0[j].0@ != key@,
        decreases table.len() - i,
    {
        if str_eq(table[i].0.as_str(), key.as_str()) {
            let ghost ti = t0[i as int];
            table.set(i, (key, value));
            proof {
                assert forall|a: int, b: int| 0 <= a < b < table@.len() implies #[trigger] table@[a].0@ != #[trigger] table@[b].0@ by {
                    assert(t0[a].0@ != t0[b].0@);
                }
                lemma_lookup_distinct(table@, i as int);
                assert forall|k: Seq<char>| k != key@ implies #[trigger] lookup(table@, k) == lookup(t0, k) by {
                    lemma_lookup_replaced(t0, i as int, table@[i as int], k);
                }
            }
            return;
        }
        i = i + 1;
    }
    let ghost t0 = table@;
    table.push((key, value));
    proof {
        assert forall|a: int, b: int| 0 <= a < b < table@.len() implies #[trigger] table@[a].0@ != #[trigger] table@[b].0@ by {
            if b < t0.len() {
                assert(t0[a].0@ != t0[b].0@);
            }
        }
        lemma_lookup_distinct(table@, t0.len() as int);
        assert forall|k: Seq<char>| k != key@ implies #[trigger] lookup(table@, k) == lookup(t0, k) by {
            lemma_lookup_pushed(t0, table@[t0.len() as int], k);
        }
    }
}

proof fn lemma_lookup_replaced(t: Seq<(String, String)>, i: int, e: (String, String), k: Seq<char>)
    requires
        0 <= i < t.len(),
        e.0@ == t[i].0@,
        k != e.0@,
    ensures
        lookup(t.update(i, e), k) == lookup(t, k),
    decreases i,
{
    if i > 0 {
        assert(t.update(i, e).drop_first() =~= t.drop_first().update(i - 1, e));
        lemma_lookup_replaced(t.drop_first(), i - 1, e, k);
    } else {
        assert(t.update(i, e).drop_first() =~= t.drop_first());
    }
}

proof fn lemma_lookup_pushed(t: Seq<(String, String)>, e: (String, String), k: Seq<char>)
    requires
        k != e.0@,
    ensures
        lookup(t.push(e), k) == lookup(t, k),
    decreases t.len(),
{
    let tp = t.push(e);
    if t.len() > 0 {
        assert(tp.drop_first() =~= t.drop_first().push(e));
        assert(tp[0] == t[0]);
        lemma_lookup_pushed(t.drop_first(), e, k);
        if t[0].0@ == k {
            assert(lookup(tp, k) == Some(t[0].1@));
        } else {
            assert(lookup(tp, k) == lookup(tp.drop_first(), k));
        }
    } else {
        assert(tp.drop_first() =~= Seq::<(String, String)>::empty());
        assert(tp[0] == e);
        assert(lookup(tp, k) == lookup(tp.drop_first(), k));
        assert(lookup(Seq::<(String, String)>::empty(), k) is None);
    }
}

/// Binds `action` to `keys` in a table of key bindings, as `HashMap::insert`
/// does: an entry for `action` has its keys replaced, otherwise the pair is
/// added.
pub fn insert_binding(table: &mut Vec<(String, Vec<String>)>, action: String, keys: Vec<String>)
    requires
        actions_distinct(old(table)@),
    ensures
        actions_distinct(final(table)@),
        exists|i: int|
            0 <= i < final(table)@.len() && #[trigger] final(table)@[i].0@ == action@
                && final(table)@[i].1@ == keys@,
        final(table)@.len() == old(table)@.len() || final(table)@.len() == old(table)@.len() + 1,
        forall|i: int|
            0 <= i < old(table)@.len() && old(table)@[i].0@ != action@ ==> #[trigger] final(table)@[i] == old(table)@[i],
{
    let ghost t0 = table@;
    let mut i: usize = 0;
    while i < table.len()
        invariant
            i <= table.len(),
            table@ == t0,
            t0 == old(table)@,
            actions_distinct(t0),
            forall|j: int| 0 <= j < i ==> #[trigger] t0[j].0@ != action@,
        decreases table.len() - i,
    {
        if str_eq(table[i].0.as_str(), action.as_str()) {
            table.set(i, (action, keys));
            proof {
                assert forall|a: int, b: int| 0 <= a < b < table@.len() implies #[trigger] table@[a].0@ != #[trigger] table@[b].0@ by {
                    assert(t0[a].0@ != t0[b].0@);
                }
                assert(table@[i as int].0@ == t0[i as int].0@);
            }
            return;
        }
        i = i + 1;
    }
    table.push((action, keys));
    proof {
        assert forall|a: int, b: int| 0 <= a < b < table@.len() implies #[trigger] table@[a].0@ != #[trigger] table@[b].0@ by {
            if b < t0.len() {
                assert(t0[a].0@ != t0[b].0@);
            }
        }
        assert(table@[t0.len() as int].0@ == action@);
    }
}

/// The value bound to `key` in `table`, if any; with no key repeated, it is
/// the value of the one entry for `key`.
pub fn lookup_exec<'a>(table: &'a Vec<(String, String)>, key: &str) -> (res: Option<&'a String>)
    ensures
        res matches Some(v) ==> lookup(table@, key@) == Some(v@),
        res is None ==> lookup(table@, key@) is None,
        res is None ==> forall|i: int| 0 <= i < table@.len() ==> #[trigger] table@[i].0@ != key@,
        keys_distinct(table@) ==> forall|i: int|
            0 <= i < table@.len() && #[trigger] table@[i].0@ == key@ ==> (res matches Some(v) && v@
                == table@[i].1@),
{
    let mut i: usize = 0;
    assert(table@.skip(0) =~= table@);
    while i < table.len()
        invariant
            i <= table.len(),
            lookup(table@, key@) == lookup(table@.skip(i as int), key@),
            forall|j: int| 0 <= j < i ==> #[trigger] table@[j].0@ != key@,
        decreases table.len() - i,
    {
        let ghost rest = table@.skip(i as int);
        assert(rest.drop_first() =~= table@.skip(i + 1));
        if str_eq(table[i].0.as_str(), key) {
            assert(rest[0] == table@[i as int]);
            proof {
                if keys_distinct(table@) {
                    assert forall|j: int| 0 <= j < table@.len() && #[trigger] table@[j].0@ == key@ implies j == i by {
                        if j != i {
                            if j < i {
                            } else {
                                assert(table@[i as int].0@ != table@[j].0@);
                            }
                        }
                    }
                }
            }
            return Some(&table[i].1);
        }
        i = i + 1;
    }
    None
}

impl Default for Config {
    fn default() -> (c: Config)
        ensures
            c.spec is None,
            c.mode == Mode::Server,
            c.lint && c.generate && c.compile,
            c.server_generators@.len() == 0,
            c.client_generators@.len() == 0,
            c.generator_overrides@.len() == 0,
            c.generator_image@ == "openapitools/openapi-generator-cli:v7.17.0"@,
            c.redocly_image@ == "redocly/cli:1.25.5"@,
            c.linter == Linter::Spectral,
            c.spectral_image@ == "stoplight/spectral:6"@,
            c.spectral_ruleset@
                == "https://raw.githubusercontent.com/entur/api-guidelines/refs/tags/v2/.spectral.yml"@,
            c.spectral_fail_severity@ == "error"@,
            c.manage_gitignore,
            c.custom_generators_dir is None,
            c.docker_timeout == 300,
            c.search_depth == 4,
            c.jobs == Jobs::Auto,
            c.keys@.len() == 0,
            c.tables_distinct(),
    {
        Config {
            spec: None,
            mode: Mode::Server,
            lint: true,
            generate: true,
            compile: true,
            server_generators: Vec::new(),
            client_generators: Vec::new(),
            generator_overrides: Vec::new(),
            generator_image: owned("openapitools/openapi-generator-cli:v7.17.0"),
            redocly_image: owned("redocly/cli:1.25.5"),
            linter: Linter::Spectral,
            spectral_image: owned("stoplight/spectral:6"),
            spectral_ruleset: owned(
                "https://raw.githubusercontent.com/entur/api-guidelines/refs/tags/v2/.spectral.yml",
            ),
            spectral_fail_severity: owned("error"),
            manage_gitignore: true,
            custom_generators_dir: None,
            docker_timeout: 300,
            search_depth: 4,
            jobs: Jobs::Auto,
            keys: Vec::new(),
        }
    }
}

} // verus!
