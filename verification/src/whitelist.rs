//! The whitelist gate: operator-approved entries are exempted from the
//! working collection entirely — a persistent trust decision, distinct
//! from the ephemeral narrowing a filter performs. The engine consults the
//! gate at ingest time; loading and saving the configuration file is the
//! host's work.
use vstd::prelude::*;
use vstd::string::StrSliceExecFns;
use vstd::string::StringExecFns;
use crate::models::{StartupEntry, StartupSource};
use crate::text::{has_prefix, is_space, is_space_exec, lower_of, starts_with_str, str_eq, to_lowercase};

verus! {

/// Whether some string of `v` reads `s`.
pub open spec fn contains_str(v: Seq<String>, s: Seq<char>) -> bool {
    exists|i: int| 0 <= i < v.len() && (#[trigger] v[i])@ == s
}

/// Membership after an insertion: everything kept, the key now present.
pub open spec fn name_inserted(new: Seq<String>, old: Seq<String>, k: Seq<char>) -> bool {
    forall|x: Seq<char>| #[trigger] contains_str(new, x) == (contains_str(old, x) || x == k)
}

/// Membership after a removal: everything but the key kept.
pub open spec fn name_removed(new: Seq<String>, old: Seq<String>, k: Seq<char>) -> bool {
    forall|x: Seq<char>| #[trigger] contains_str(new, x) == (contains_str(old, x) && x != k)
}

/// The operator's trust lists: process file names, service identifiers
/// and scheduled-task names, all held lowercased. Only membership
/// matters; the engine never relies on an order of these lists.
#[derive(Debug)]
pub struct WhitelistConfig {
    pub safe_processes: Vec<String>,
    pub safe_services: Vec<String>,
    pub safe_tasks: Vec<String>,
}

impl Default for WhitelistConfig {
    /// The initial trust list: common system processes that an operator
    /// should not disturb; no services or tasks.
    fn default() -> (r: Self)
        ensures
            r.safe_processes@.len() == 8,
            r.safe_processes@[0]@ == "explorer.exe"@,
            r.safe_processes@[1]@ == "winlogon.exe"@,
            r.safe_processes@[2]@ == "csrss.exe"@,
            r.safe_processes@[3]@ == "services.exe"@,
            r.safe_processes@[4]@ == "lsass.exe"@,
            r.safe_processes@[5]@ == "svchost.exe"@,
            r.safe_processes@[6]@ == "dwm.exe"@,
            r.safe_processes@[7]@ == "conhost.exe"@,
            r.safe_services@.len() == 0,
            r.safe_tasks@.len() == 0,
    {
        let mut safe_processes: Vec<String> = Vec::new();
        safe_processes.push(String::from_str("explorer.exe"));
        safe_processes.push(String::from_str("winlogon.exe"));
        safe_processes.push(String::from_str("csrss.exe"));
        safe_processes.push(String::from_str("services.exe"));
        safe_processes.push(String::from_str("lsass.exe"));
        safe_processes.push(String::from_str("svchost.exe"));
        safe_processes.push(String::from_str("dwm.exe"));
        safe_processes.push(String::from_str("conhost.exe"));
        WhitelistConfig { safe_processes, safe_services: Vec::new(), safe_tasks: Vec::new() }
    }
}

/// A path separator, forward or backward.
pub open spec fn is_sep(c: char) -> bool {
    c == '/' || c == '\\'
}

/// `s` with its leading spaces dropped.
pub open spec fn skip_ws(s: Seq<char>) -> Seq<char>
    decreases s.len(),
{
    if s.len() == 0 {
        s
    } else if is_space(s[0]) {
        skip_ws(s.skip(1))
    } else {
        s
    }
}

/// The longest space-free prefix of `s`.
pub open spec fn take_token(s: Seq<char>) -> Seq<char>
    decreases s.len(),
{
    if s.len() == 0 {
        s
    } else if is_space(s[0]) {
        Seq::empty()
    } else {
        seq![s[0]] + take_token(s.skip(1))
    }
}

/// The first space-delimited token of `s`.
pub open spec fn first_token(s: Seq<char>) -> Seq<char> {
    take_token(skip_ws(s))
}

/// `s` with every leading and trailing quote dropped.
pub open spec fn trim_quotes(s: Seq<char>) -> Seq<char>
    decreases s.len(),
{
    if s.len() > 0 && s[0] == '"' {
        trim_quotes(s.skip(1))
    } else if s.len() > 0 && s.last() == '"' {
        trim_quotes(s.drop_last())
    } else {
        s
    }
}

/// The suffix of `s` after its last path separator.
pub open spec fn file_part(s: Seq<char>) -> Seq<char>
    decreases s.len(),
{
    if s.len() == 0 {
        s
    } else if is_sep(s.last()) {
        Seq::empty()
    } else {
        file_part(s.drop_last()).push(s.last())
    }
}

/// The executable's file name in a command line, lowercased: the first
/// token, unquoted, after its last path separator. `None` when nothing
/// remains.
pub open spec fn process_name_of(cmd: Seq<char>) -> Option<Seq<char>> {
    let t = file_part(trim_quotes(first_token(cmd)));
    if t.len() == 0 {
        None
    } else {
        Some(lower_of(t))
    }
}

/// The backend-internal service identifier an entry's description
/// carries, lowercased: the text after the `Service: ` convention prefix.
pub open spec fn service_key_of(e: StartupEntry) -> Option<Seq<char>> {
    match e.description {
        Some(d) => if has_prefix(d@, "Service: "@) {
            Some(lower_of(d@.skip("Service: "@.len() as int)))
        } else {
            None
        },
        None => None,
    }
}

/// Whether the operator has exempted this entry: by its process file
/// name, by its service identifier, or — for scheduled tasks — by its
/// name.
pub open spec fn is_exempt(c: WhitelistConfig, e: StartupEntry) -> bool {
    ||| match process_name_of(e.command@) {
        Some(p) => contains_str(c.safe_processes@, p),
        None => false,
    }
    ||| match service_key_of(e) {
        Some(k) => contains_str(c.safe_services@, k),
        None => false,
    }
    ||| (e.source == StartupSource::TaskScheduler && contains_str(
        c.safe_tasks@,
        lower_of(e.name@),
    ))
}

/// The entries of `s` the operator has not exempted, in order.
pub open spec fn exempt_filtered(c: WhitelistConfig, s: Seq<StartupEntry>) -> Seq<StartupEntry>
    decreases s.len(),
{
    if s.len() == 0 {
        Seq::empty()
    } else {
        exempt_filtered(c, s.drop_last()) + if is_exempt(c, s.last()) {
            Seq::empty()
        } else {
            seq![s.last()]
        }
    }
}

/// Exemption is persistent: an exempted entry is never in the working
/// collection this returns, which only drops entries — it never invents
/// or reorders them.
pub proof fn lemma_exempt_never_in_working(c: WhitelistConfig, s: Seq<StartupEntry>)
    ensures
        forall|e: StartupEntry| #[trigger]
            exempt_filtered(c, s).contains(e) ==> s.contains(e) && !is_exempt(c, e),
    decreases s.len(),
{
    if s.len() > 0 {
        lemma_exempt_never_in_working(c, s.drop_last());
        assert forall|e: StartupEntry| #[trigger] exempt_filtered(c, s).contains(e) implies s
            .contains(e) && !is_exempt(c, e) by {
            let i = choose|i: int|
                0 <= i < exempt_filtered(c, s).len() && exempt_filtered(c, s)[i] == e;
            if i < exempt_filtered(c, s.drop_last()).len() {
                assert(exempt_filtered(c, s.drop_last()).contains(e));
                let j = choose|j: int| 0 <= j < s.drop_last().len() && s.drop_last()[j] == e;
                assert(s[j] == e);
            } else {
                assert(e == s.last());
                assert(s[s.len() - 1] == e);
            }
        }
    }
}

/// Exemption never reads the enabled flag: disabling an entry cannot make
/// it exempt or un-exempt.
pub proof fn lemma_exempt_ignores_enabled(c: WhitelistConfig, a: StartupEntry, b: StartupEntry)
    requires
        a.name@ == b.name@,
        a.command@ == b.command@,
        a.source == b.source,
        a.description matches Some(d) ==> (b.description matches Some(d2) && d@ == d2@),
        a.description is None ==> b.description is None,
    ensures
        is_exempt(c, a) == is_exempt(c, b),
{
}

/// Whether some string of `v` reads `s`.
fn names_contain(v: &Vec<String>, s: &str) -> (r: bool)
    ensures
        r == contains_str(v@, s@),
{
    let mut i: usize = 0;
    while i < v.len()
        invariant
            i <= v@.len(),
            forall|k: int| 0 <= k < i ==> (#[trigger] v@[k])@ != s@,
        decreases v@.len() - i,
    {
        if str_eq(v[i].as_str(), s) {
            proof {
                assert((v@[i as int])@ == s@);
            }
            return true;
        }
        i += 1;
    }
    false
}

/// Adds `k` unless it is already present.
fn insert_name(v: &mut Vec<String>, k: String)
    ensures
        name_inserted(final(v)@, old(v)@, k@),
{
    let ghost k_view = k@;
    if !names_contain(v, k.as_str()) {
        v.push(k);
        proof {
            assert forall|x: Seq<char>| #[trigger]
                contains_str(v@, x) == (contains_str(old(v)@, x) || x == k_view) by {
                if contains_str(v@, x) {
                    let i = choose|i: int| 0 <= i < v@.len() && (#[trigger] v@[i])@ == x;
                    if i < old(v)@.len() {
                        assert(contains_str(old(v)@, x));
                    } else {
                        assert(x == k_view);
                    }
                }
                if contains_str(old(v)@, x) {
                    let i = choose|i: int| 0 <= i < old(v)@.len() && (#[trigger] old(v)@[i])@ == x;
                    assert((v@[i])@ == x);
                    assert(contains_str(v@, x));
                }
                if x == k_view {
                    assert((v@[v@.len() - 1])@ == x);
                    assert(contains_str(v@, x));
                }
            }
        }
    } else {
        proof {
            assert forall|x: Seq<char>| #[trigger]
                contains_str(v@, x) == (contains_str(old(v)@, x) || x == k_view) by {}
        }
    }
}

/// Drops every occurrence of `k`.
fn remove_name(v: &mut Vec<String>, k: &str)
    ensures
        name_removed(final(v)@, old(v)@, k@),
{
    let mut out: Vec<String> = Vec::new();
    let mut i: usize = 0;
    while i < v.len()
        invariant
            i <= v@.len(),
            v@ == old(v)@,
            forall|x: Seq<char>| #[trigger]
                contains_str(out@, x) == (contains_str(v@.take(i as int), x) && x != k@),
        decreases v@.len() - i,
    {
        let ghost pre = v@.take(i as int);
        let ghost post = v@.take(i + 1);
        let ghost out0 = out@;
        let keep = !str_eq(v[i].as_str(), k);
        if keep {
            let copied = v[i].clone();
            out.push(copied);
        }
        proof {
            assert(post =~= pre.push(v@[i as int]));
            assert forall|x: Seq<char>| #[trigger]
                contains_str(out@, x) == (contains_str(post, x) && x != k@) by {
                if contains_str(out@, x) {
                    let j = choose|j: int| 0 <= j < out@.len() && (#[trigger] out@[j])@ == x;
                    if j < out0.len() {
                        assert(contains_str(out0, x));
                        let j2 = choose|j2: int| 0 <= j2 < pre.len() && (#[trigger] pre[j2])@ == x;
                        assert((post[j2])@ == x);
                        assert(contains_str(post, x));
                    } else {
                        assert((out@[j])@ == (v@[i as int])@);
                        assert((post[post.len() - 1])@ == x);
                        assert(contains_str(post, x));
                        assert(x != k@);
                    }
                }
                if contains_str(post, x) && x != k@ {
                    let j = choose|j: int| 0 <= j < post.len() && (#[trigger] post[j])@ == x;
                    if j < pre.len() {
                        assert((pre[j])@ == x);
                        assert(contains_str(pre, x));
                        assert(contains_str(out0, x));
                        let j2 = choose|j2: int| 0 <= j2 < out0.len() && (#[trigger] out0[j2])@ == x;
                        assert((out@[j2])@ == x);
                        assert(contains_str(out@, x));
                    } else {
                        assert((v@[i as int])@ == x);
                        assert(keep);
                        assert((out@[out@.len() - 1])@ == x);
                        assert(contains_str(out@, x));
                    }
                }
            }
        }
        i += 1;
    }
    proof {
        assert(v@.take(v@.len() as int) =~= v@);
    }
    *v = out;
}

/// Consults and edits the operator's trust lists. The configuration is
/// loaded and persisted by the host; the manager holds the lists and the
/// path they came from.
pub struct WhitelistManager {
    config: WhitelistConfig,
    config_path: String,
}

impl WhitelistManager {
    /// The trust lists this manager consults.
    pub closed spec fn spec_config(&self) -> WhitelistConfig {
        self.config
    }

    /// Where the host persists the lists.
    pub closed spec fn spec_path(&self) -> Seq<char> {
        self.config_path@
    }

    /// A manager over lists the host has loaded (or defaulted) from
    /// `config_path`.
    pub fn from_config(config: WhitelistConfig, config_path: String) -> (r: Self)
        ensures
            r.spec_config() == config,
            r.spec_path() == config_path@,
    {
        WhitelistManager { config, config_path }
    }

    /// The path the configuration is persisted at.
    pub fn path(&self) -> (r: &str)
        ensures
            r@ == self.spec_path(),
    {
        self.config_path.as_str()
    }

    /// Whether the operator has exempted this entry.
    pub fn is_whitelisted(&self, entry: &StartupEntry) -> (r: bool)
        ensures
            r == is_exempt(self.spec_config(), *entry),
    {
        // process file name, from the command line
        if let Some(process_name) = Self::extract_process_name(entry.command.as_str()) {
            if names_contain(&self.config.safe_processes, process_name.as_str()) {
                return true;
            }
        }
        // service identifier, from the description convention
        if let Some(d) = &entry.description {
            if starts_with_str(d.as_str(), "Service: ") {
                let plen = prefix_len();
                let rest = d.as_str().substring_char(plen, d.as_str().unicode_len());
                let rest_lower = to_lowercase(rest);
                proof {
                    assert(rest@ =~= d@.skip("Service: "@.len() as int));
                }
                if names_contain(&self.config.safe_services, rest_lower.as_str()) {
                    return true;
                }
            }
        }
        // task name
        if matches!(entry.source, StartupSource::TaskScheduler) {
            let name_lower = to_lowercase(entry.name.as_str());
            if names_contain(&self.config.safe_tasks, name_lower.as_str()) {
                return true;
            }
        }
        false
    }

    /// Records the operator's trust in this entry: services by their
    /// identifier, scheduled tasks by their name, everything else by its
    /// process file name; entries that yield no key change nothing.
    /// Persisting the updated lists is the host's work.
    pub fn add_to_whitelist(&mut self, entry: &StartupEntry) -> (r: Result<(), ()>)
        ensures
            r is Ok,
            final(self).spec_path() == old(self).spec_path(),
            whitelist_added(final(self).spec_config(), old(self).spec_config(), *entry),
    {
        match entry.source {
            StartupSource::Service => {
                if let Some(d) = &entry.description {
                    if starts_with_str(d.as_str(), "Service: ") {
                        let plen = prefix_len();
                        let rest = d.as_str().substring_char(plen, d.as_str().unicode_len());
                        let rest_lower = to_lowercase(rest);
                        proof {
                            assert(rest@ =~= d@.skip("Service: "@.len() as int));
                        }
                        insert_name(&mut self.config.safe_services, rest_lower);
                    }
                }
            },
            StartupSource::TaskScheduler => {
                let name_lower = to_lowercase(entry.name.as_str());
                insert_name(&mut self.config.safe_tasks, name_lower);
            },
            _ => {
                if let Some(process_name) = Self::extract_process_name(entry.command.as_str()) {
                    insert_name(&mut self.config.safe_processes, process_name);
                }
            },
        }
        Ok(())
    }

    /// Withdraws the operator's trust in this entry, by the same key the
    /// trust was recorded under. Persisting is the host's work.
    pub fn remove_from_whitelist(&mut self, entry: &StartupEntry) -> (r: Result<(), ()>)
        ensures
            r is Ok,
            final(self).spec_path() == old(self).spec_path(),
            whitelist_removed(final(self).spec_config(), old(self).spec_config(), *entry),
    {
        match entry.source {
            StartupSource::Service => {
                if let Some(d) = &entry.description {
                    if starts_with_str(d.as_str(), "Service: ") {
                        let plen = prefix_len();
                        let rest = d.as_str().substring_char(plen, d.as_str().unicode_len());
                        let rest_lower = to_lowercase(rest);
                        proof {
                            assert(rest@ =~= d@.skip("Service: "@.len() as int));
                        }
                        remove_name(&mut self.config.safe_services, rest_lower.as_str());
                    }
                }
            },
            StartupSource::TaskScheduler => {
                let name_lower = to_lowercase(entry.name.as_str());
                remove_name(&mut self.config.safe_tasks, name_lower.as_str());
            },
            _ => {
                if let Some(process_name) = Self::extract_process_name(entry.command.as_str()) {
                    remove_name(&mut self.config.safe_processes, process_name.as_str());
                }
            },
        }
        Ok(())
    }

    /// The working collection: exactly the entries the operator has not
    /// exempted, in their scan order.
    pub fn filter_whitelisted(&self, entries: Vec<StartupEntry>) -> (r: Vec<StartupEntry>)
        ensures
            r@ == exempt_filtered(self.spec_config(), entries@),
    {
        let mut out: Vec<StartupEntry> = Vec::new();
        let mut i: usize = 0;
        while i < entries.len()
            invariant
                i <= entries.len(),
                out@ == exempt_filtered(self.spec_config(), entries@.take(i as int)),
            decreases entries.len() - i,
        {
            let ghost pre = entries@.take(i as int);
            let ghost post = entries@.take(i + 1);
            proof {
                assert(post.drop_last() =~= pre);
                assert(post.last() == entries@[i as int]);
            }
            if !self.is_whitelisted(&entries[i]) {
                out.push(entries[i].clone());
                proof {
                    assert(out@ =~= exempt_filtered(self.spec_config(), pre) + seq![
                        entries@[i as int],
                    ]);
                }
            } else {
                proof {
                    assert(out@ =~= exempt_filtered(self.spec_config(), pre)
                        + Seq::<StartupEntry>::empty());
                }
            }
            i += 1;
        }
        proof {
            assert(entries@.take(entries@.len() as int) =~= entries@);
        }
        out
    }

    /// The executable's file name in a command line, lowercased: the
    /// first token, unquoted, after its last path separator.
    pub fn extract_process_name(command: &str) -> (r: Option<String>)
        ensures
            match r {
                Some(p) => process_name_of(command@) == Some(p@),
                None => process_name_of(command@) is None,
            },
    {
        let token = first_token_exec(command);
        let unquoted = trim_quotes_exec(token);
        let file = file_part_exec(unquoted);
        if file.unicode_len() == 0 {
            None
        } else {
            Some(to_lowercase(file))
        }
    }

    /// Read access to the trust lists, for display and persistence.
    pub fn get_config(&self) -> (r: &WhitelistConfig)
        ensures
            *r == self.spec_config(),
    {
        &self.config
    }
}

/// What adding an entry does to the lists, keyed by its source.
pub open spec fn whitelist_added(
    new: WhitelistConfig,
    old: WhitelistConfig,
    e: StartupEntry,
) -> bool {
    match e.source {
        StartupSource::Service => {
            &&& match service_key_of(e) {
                Some(k) => name_inserted(new.safe_services@, old.safe_services@, k),
                None => new.safe_services@ == old.safe_services@,
            }
            &&& new.safe_processes@ == old.safe_processes@
            &&& new.safe_tasks@ == old.safe_tasks@
        },
        StartupSource::TaskScheduler => {
            &&& name_inserted(new.safe_tasks@, old.safe_tasks@, lower_of(e.name@))
            &&& new.safe_processes@ == old.safe_processes@
            &&& new.safe_services@ == old.safe_services@
        },
        _ => {
            &&& match process_name_of(e.command@) {
                Some(p) => name_inserted(new.safe_processes@, old.safe_processes@, p),
                None => new.safe_processes@ == old.safe_processes@,
            }
            &&& new.safe_services@ == old.safe_services@
            &&& new.safe_tasks@ == old.safe_tasks@
        },
    }
}

/// What removing an entry does to the lists, keyed by its source.
pub open spec fn whitelist_removed(
    new: WhitelistConfig,
    old: WhitelistConfig,
    e: StartupEntry,
) -> bool {
    match e.source {
        StartupSource::Service => {
            &&& match service_key_of(e) {
                Some(k) => name_removed(new.safe_services@, old.safe_services@, k),
                None => new.safe_services@ == old.safe_services@,
            }
            &&& new.safe_processes@ == old.safe_processes@
            &&& new.safe_tasks@ == old.safe_tasks@
        },
        StartupSource::TaskScheduler => {
            &&& name_removed(new.safe_tasks@, old.safe_tasks@, lower_of(e.name@))
            &&& new.safe_processes@ == old.safe_processes@
            &&& new.safe_services@ == old.safe_services@
        },
        _ => {
            &&& match process_name_of(e.command@) {
                Some(p) => name_removed(new.safe_processes@, old.safe_processes@, p),
                None => new.safe_processes@ == old.safe_processes@,
            }
            &&& new.safe_services@ == old.safe_services@
            &&& new.safe_tasks@ == old.safe_tasks@
        },
    }
}

/// The character count of the `Service: ` convention prefix.
fn prefix_len() -> (r: usize)
    ensures
        r == "Service: "@.len(),
{
    proof {
        reveal_strlit("Service: ");
    }
    9
}

/// Whether `c` is a path separator.
fn is_sep_exec(c: char) -> (r: bool)
    ensures
        r == is_sep(c),
{
    c == '/' || c == '\\'
}

/// The first space-delimited token of `s`.
fn first_token_exec(s: &str) -> (r: &str)
    ensures
        r@ == first_token(s@),
    decreases s@.len(),
{
    let n = s.unicode_len();
    if n == 0 {
        s
    } else if is_space_exec(s.get_char(0)) {
        let rest = s.substring_char(1, n);
        proof {
            assert(rest@ =~= s@.skip(1));
        }
        let r = first_token_exec(rest);
        proof {
            assert(skip_ws(s@) == skip_ws(s@.skip(1)));
        }
        r
    } else {
        proof {
            assert(skip_ws(s@) == s@);
        }
        let mut j: usize = 1;
        while j < n && !is_space_exec(s.get_char(j))
            invariant
                1 <= j <= n,
                n == s@.len(),
                n >= 1,
                !is_space(s@[0]),
                forall|k: int| 0 <= k < j ==> !is_space(s@[k]),
            decreases n - j,
        {
            j += 1;
        }
        let tok = s.substring_char(0, j);
        proof {
            lemma_take_token_prefix(s@, j as int);
            assert(tok@ =~= s@.subrange(0, j as int));
        }
        tok
    }
}

/// A space-free prefix that ends at a space (or the end) is the token.
proof fn lemma_take_token_prefix(s: Seq<char>, j: int)
    requires
        0 <= j <= s.len(),
        forall|k: int| 0 <= k < j ==> !is_space(#[trigger] s[k]),
        j < s.len() ==> is_space(s[j]),
    ensures
        take_token(s) == s.subrange(0, j),
    decreases j,
{
    if s.len() == 0 {
        assert(take_token(s) =~= s.subrange(0, j));
    } else if is_space(s[0]) {
        assert(j == 0);
        assert(take_token(s) =~= s.subrange(0, 0));
    } else {
        let rest = s.skip(1);
        lemma_take_token_prefix(rest, j - 1);
        assert(take_token(s) == seq![s[0]] + take_token(rest));
        assert(seq![s[0]] + rest.subrange(0, j - 1) =~= s.subrange(0, j));
    }
}

/// `s` with every leading and trailing quote dropped.
fn trim_quotes_exec(s: &str) -> (r: &str)
    ensures
        r@ == trim_quotes(s@),
    decreases s@.len(),
{
    let n = s.unicode_len();
    if n > 0 && s.get_char(0) == '"' {
        let rest = s.substring_char(1, n);
        proof {
            assert(rest@ =~= s@.skip(1));
        }
        trim_quotes_exec(rest)
    } else if n > 0 && s.get_char(n - 1) == '"' {
        let rest = s.substring_char(0, n - 1);
        proof {
            assert(rest@ =~= s@.drop_last());
        }
        trim_quotes_exec(rest)
    } else {
        s
    }
}

/// The suffix of `s` after its last path separator.
fn file_part_exec(s: &str) -> (r: &str)
    ensures
        r@ == file_part(s@),
{
    let n = s.unicode_len();
    let mut p: usize = n;
    while p > 0 && !is_sep_exec(s.get_char(p - 1))
        invariant
            p <= n,
            n == s@.len(),
            forall|k: int| p <= k < n ==> !is_sep(#[trigger] s@[k]),
        decreases p,
    {
        p -= 1;
    }
    let r = s.substring_char(p, n);
    proof {
        lemma_file_part_suffix(s@, p as int);
        assert(r@ =~= s@.skip(p as int));
    }
    r
}

/// A separator-free suffix that begins after a separator (or at the
/// start) is the file part.
proof fn lemma_file_part_suffix(s: Seq<char>, p: int)
    requires
        0 <= p <= s.len(),
        forall|k: int| p <= k < s.len() ==> !is_sep(#[trigger] s[k]),
        p > 0 ==> is_sep(s[p - 1]),
    ensures
        file_part(s) == s.skip(p),
    decreases s.len(),
{
    if s.len() == 0 {
        assert(file_part(s) =~= s.skip(p));
    } else if p == s.len() {
        assert(is_sep(s.last()));
        assert(file_part(s) =~= s.skip(p));
    } else {
        assert(!is_sep(s[s.len() - 1]));
        let dl = s.drop_last();
        lemma_file_part_suffix(dl, p);
        assert(dl.skip(p).push(s.last()) =~= s.skip(p));
    }
}

} // verus!
