//! Run-time options of the service.
use vstd::prelude::*;

verus! {

/// The largest depth of the page hierarchy that the service returns.
pub const MAX_DEPTH: u32 = 6;

/// Options chosen on the command line.
#[derive(Debug)]
pub struct Opt {
    /// Directory that holds cached pages; a leading `$HOME` component stands for the home directory.
    pub cache: String,
    /// Overrides the number of processor cores.
    pub cores: Option<u64>,
    /// Requested depth of the page hierarchy.
    pub depth: u32,
    /// Root URL of the wikipedia API.
    pub domain_name: String,
    /// Overrides the system memory, in KB.
    pub memory: Option<u64>,
    /// Port on which the API is presented.
    pub port: u32,
    /// Overrides the number of worker tasks.
    pub workers: Option<usize>,
}

/// `depth` held to the range 1 ..= MAX_DEPTH.
pub open spec fn clamped_depth(depth: int) -> int {
    if depth < 1 {
        1
    } else if depth > MAX_DEPTH {
        MAX_DEPTH as int
    } else {
        depth
    }
}

impl Opt {
    /// The requested depth, held to 1 ..= 6: 1 is the requested page only, 2 adds the pages it
    /// links to, and so on.
    pub fn get_depth(&self) -> (depth: u32)
        ensures
            depth == clamped_depth(self.depth as int),
            1 <= depth <= MAX_DEPTH,
    {
        let capped = if self.depth < MAX_DEPTH { self.depth } else { MAX_DEPTH };
        if capped > 1 { capped } else { 1 }
    }

    pub fn get_port(&self) -> (port: u32)
        ensures
            port == self.port,
    {
        self.port
    }

    pub fn get_domain_name(&self) -> (name: &str)
        ensures
            name@ == self.domain_name@,
    {
        self.domain_name.as_str()
    }

    pub fn get_memory(&self) -> (memory: &Option<u64>)
        ensures
            *memory == self.memory,
    {
        &self.memory
    }

    pub fn get_cores(&self) -> (cores: &Option<u64>)
        ensures
            *cores == self.cores,
    {
        &self.cores
    }

    pub fn get_worker_count(&self) -> (workers: Option<usize>)
        ensures
            workers == self.workers,
    {
        self.workers
    }
}

/// The leading component that stands for the home directory in the cache directory.
pub const HOME_COMPONENT: &'static str = "$HOME";

/// The path's first component is `$HOME`: it begins with `$HOME`, followed by its end or by
/// a `/`.
pub open spec fn starts_with_home(path: Seq<char>) -> bool {
    &&& path.len() >= 5
    &&& path.take(5) == HOME_COMPONENT@
    &&& (path.len() == 5 || path[5] == '/')
}

/// The index of the first `/` in `s`, or its length where there is none.
pub open spec fn first_separator(s: Seq<char>) -> int
    decreases s.len(),
{
    if s.len() == 0 {
        0
    } else if s[0] == '/' {
        0
    } else {
        1 + first_separator(s.drop_first())
    }
}

/// The index of the last `/` in `s`, or -1 where there is none.
pub open spec fn last_slash(s: Seq<char>) -> int
    decreases s.len(),
{
    if s.len() == 0 {
        -1
    } else if s.last() == '/' {
        s.len() - 1
    } else {
        last_slash(s.drop_last())
    }
}

/// A part between separators that names no component: empty or `.`.
pub open spec fn is_blank_part(part: Seq<char>) -> bool {
    part.len() == 0 || part == "."@
}

/// `s` without its leading parts that name no component (empty or `.`), each with the `/`
/// that ends it.
pub open spec fn trim_front(s: Seq<char>) -> Seq<char>
    decreases s.len(),
{
    if s.len() == 0 {
        s
    } else {
        let i = first_separator(s);
        proof {
            lemma_first_separator_range(s);
        }
        if is_blank_part(s.take(i)) {
            trim_front(s.skip(if i < s.len() { i + 1 } else { s.len() as int }))
        } else {
            s
        }
    }
}

/// `s` without its trailing parts that name no component (empty or `.`), each with the `/`
/// before it.
pub open spec fn trim_back(s: Seq<char>) -> Seq<char>
    decreases s.len(),
{
    if s.len() == 0 {
        s
    } else {
        let k = last_slash(s);
        proof {
            lemma_last_slash_range(s);
        }
        if is_blank_part(s.skip(k + 1)) {
            trim_back(s.take(if k >= 0 { k } else { 0 }))
        } else {
            s
        }
    }
}

/// What follows the leading `$HOME` component of a cache directory, as
/// `Path::strip_prefix("$HOME")` gives it: the rest of the path, without the parts at its
/// ends that name no component.
pub open spec fn after_home(cache: Seq<char>) -> Seq<char> {
    let rest = if cache.len() <= 5 {
        Seq::<char>::empty()
    } else {
        cache.skip(6)
    };
    trim_back(trim_front(rest))
}

/// `name` pushed onto the path `base`: appended, with a `/` between them unless `base` is
/// empty or already ends with one.
pub open spec fn pushed(base: Seq<char>, name: Seq<char>) -> Seq<char> {
    if base.len() == 0 {
        name
    } else if base.last() == '/' {
        base + name
    } else {
        base + "/"@ + name
    }
}

/// The cache directory for `cache` and the home directory `home`: where `cache` begins with
/// the component `$HOME`, the home directory joined with what follows that component, else
/// `cache` itself.
pub open spec fn cache_directory(cache: Seq<char>, home: Seq<char>) -> Seq<char> {
    if starts_with_home(cache) {
        pushed(home, after_home(cache))
    } else {
        cache
    }
}

/// The cache directory can be resolved: it does not begin with `$HOME`, or the home
/// directory is known.
pub open spec fn cache_resolvable(cache: Seq<char>, home: Option<Seq<char>>) -> bool {
    starts_with_home(cache) ==> home is Some
}

/// The texts of an optional string.
pub open spec fn optional_text(text: Option<&str>) -> Option<Seq<char>> {
    match text {
        Some(t) => Some(t@),
        None => None,
    }
}

/// The first `/` of `s` lies within `s`, and none comes before it.
pub proof fn lemma_first_separator_range(s: Seq<char>)
    ensures
        0 <= first_separator(s) <= s.len(),
        first_separator(s) < s.len() ==> s[first_separator(s)] == '/',
        forall|j: int| 0 <= j < first_separator(s) ==> s[j] != '/',
    decreases s.len(),
{
    if s.len() > 0 && s[0] != '/' {
        lemma_first_separator_range(s.drop_first());
        assert forall|j: int| 0 <= j < first_separator(s) implies s[j] != '/' by {
            if j > 0 {
                assert(s[j] == s.drop_first()[j - 1]);
            }
        }
    }
}

/// The first `/` of `s` is at `i` where none comes before `i` and `i` is the end or a `/`.
proof fn lemma_first_separator_at(s: Seq<char>, i: int)
    requires
        0 <= i <= s.len(),
        forall|j: int| 0 <= j < i ==> s[j] != '/',
        i == s.len() || s[i] == '/',
    ensures
        first_separator(s) == i,
    decreases i,
{
    if i > 0 {
        assert forall|j: int| 0 <= j < i - 1 implies s.drop_first()[j] != '/' by {
            assert(s.drop_first()[j] == s[j + 1]);
        }
        lemma_first_separator_at(s.drop_first(), i - 1);
    }
}

/// The last `/` of `s` lies within `s`.
pub proof fn lemma_last_slash_range(s: Seq<char>)
    ensures
        -1 <= last_slash(s) < s.len(),
        last_slash(s) >= 0 ==> s[last_slash(s)] == '/',
    decreases s.len(),
{
    if s.len() > 0 && s.last() != '/' {
        lemma_last_slash_range(s.drop_last());
    }
}

/// The index of the last `/` in `t.take(end)` is the last `/` before `k` where none follows
/// until `end`.
proof fn lemma_last_slash_before(t: Seq<char>, k: int, end: int)
    requires
        0 <= k <= end <= t.len(),
        forall|j: int| k <= j < end ==> t[j] != '/',
    ensures
        last_slash(t.take(end)) == last_slash(t.take(k)),
    decreases end - k,
{
    if end > k {
        assert(t.take(end).drop_last() =~= t.take(end - 1));
        lemma_last_slash_before(t, k, end - 1);
    }
}

/// Whether the part `path[from..to]` names no component: it is empty or `.`.
fn blank_part(path: &str, from: usize, to: usize) -> (blank: bool)
    requires
        from <= to <= path@.len(),
    ensures
        blank == is_blank_part(path@.subrange(from as int, to as int)),
{
    proof {
        reveal_strlit(".");
    }
    if from == to {
        return true;
    }
    if to - from != 1 {
        assert(path@.subrange(from as int, to as int).len() != "."@.len());
        return false;
    }
    let dot = path.get_char(from) == '.';
    assert(dot ==> path@.subrange(from as int, to as int) =~= "."@);
    assert(path@.subrange(from as int, to as int)[0] == path@[from as int]);
    dot
}

/// What follows the leading `$HOME` component of `cache`, which begins with it.
fn get_after_home(cache: &str) -> (rest: String)
    requires
        starts_with_home(cache@),
    ensures
        rest@ == after_home(cache@),
{
    let n = cache.unicode_len();
    let mut start: usize = if n == 5 { 5 } else { 6 };
    let ghost whole = if n <= 5 { Seq::<char>::empty() } else { cache@.skip(6) };
    assert(whole =~= cache@.subrange(start as int, n as int));
    // Leading parts that name no component.
    loop
        invariant
            start <= n,
            n == cache@.len(),
            trim_front(whole) == trim_front(cache@.subrange(start as int, n as int)),
        ensures
            start <= n,
            trim_front(whole) == cache@.subrange(start as int, n as int),
        decreases n - start,
    {
        if start == n {
            assert(cache@.subrange(start as int, n as int) =~= Seq::<char>::empty());
            break;
        }
        let mut i = start;
        while i < n && cache.get_char(i) != '/'
            invariant
                start <= i <= n,
                n == cache@.len(),
                forall|j: int| start <= j < i ==> cache@[j] != '/',
            decreases n - i,
        {
            i = i + 1;
        }
        let ghost s = cache@.subrange(start as int, n as int);
        proof {
            lemma_first_separator_at(s, i - start);
            assert(s.take(i - start) =~= cache@.subrange(start as int, i as int));
        }
        if !blank_part(cache, start, i) {
            break;
        }
        let next = if i < n { i + 1 } else { n };
        assert(s.skip(next - start) =~= cache@.subrange(next as int, n as int));
        start = next;
    }
    let ghost front = cache@.subrange(start as int, n as int);
    // Trailing parts that name no component.
    let mut end = n;
    assert(front =~= cache@.subrange(start as int, end as int));
    loop
        invariant
            start <= end <= n,
            n == cache@.len(),
            trim_back(front) == trim_back(cache@.subrange(start as int, end as int)),
        ensures
            start <= end <= n,
            trim_back(front) == cache@.subrange(start as int, end as int),
        decreases end - start,
    {
        if end == start {
            assert(cache@.subrange(start as int, end as int) =~= Seq::<char>::empty());
            break;
        }
        let mut k = end;
        while k > start && cache.get_char(k - 1) != '/'
            invariant
                start <= k <= end <= n,
                n == cache@.len(),
                forall|j: int| k <= j < end ==> cache@[j] != '/',
            decreases k,
        {
            k = k - 1;
        }
        let ghost t = cache@.subrange(start as int, end as int);
        proof {
            let u = cache@.subrange(start as int, n as int);
            assert forall|j: int| k - start <= j < end - start implies u[j] != '/' by {
                assert(u[j] == cache@[start + j]);
            }
            lemma_last_slash_before(u, k - start, end - start);
            assert(u.take(end - start) =~= t);
            if k > start {
                assert(u.take(k - start).last() == '/');
            } else {
                assert(u.take(0) =~= Seq::<char>::empty());
            }
            assert(last_slash(t) == k - start - 1);
            assert(t.skip(k - start) =~= cache@.subrange(k as int, end as int));
        }
        if !blank_part(cache, k, end) {
            break;
        }
        let next = if k > start { k - 1 } else { start };
        assert(t.take(next - start) =~= cache@.subrange(start as int, next as int));
        end = next;
    }
    let rest = cache.substring_char(start, end);
    String::from_str(rest)
}

impl Opt {
    /// The cache directory, given the home directory `home`: a cache directory that begins
    /// with the component `$HOME` is the home directory joined with what follows that
    /// component (so `$HOME/six_degrees_cache` is `<home>/six_degrees_cache`); any other is
    /// kept as it is.
    pub fn get_cache(&self, home: Option<&str>) -> (cache: String)
        requires
            cache_resolvable(self.cache@, optional_text(home)),
        ensures
            cache@ == cache_directory(self.cache@, optional_text(home)->0),
    {
        if self.cache_starts_with_home() {
            let rest = get_after_home(self.cache.as_str());
            let base = home.unwrap();
            let mut cache = String::from_str(base);
            let n = base.unicode_len();
            if n > 0 && base.get_char(n - 1) != '/' {
                cache.append("/");
            }
            cache.append(rest.as_str());
            assert(cache@ =~= pushed(base@, after_home(self.cache@)));
            cache
        } else {
            self.cache.clone()
        }
    }

    /// The cache directory, given the home directory `home`, or None where the cache
    /// directory begins with `$HOME` and the home directory is unknown.
    pub fn try_get_cache(&self, home: Option<&str>) -> (cache: Option<String>)
        ensures
            match cache {
                Some(c) => cache_resolvable(self.cache@, optional_text(home)) && c@
                    == cache_directory(self.cache@, optional_text(home)->0),
                None => !cache_resolvable(self.cache@, optional_text(home)),
            },
    {
        if self.cache_starts_with_home() && home.is_none() {
            return None;
        }
        Some(self.get_cache(home))
    }

    /// Whether the cache directory begins with the component `$HOME`.
    fn cache_starts_with_home(&self) -> (found: bool)
        ensures
            found == starts_with_home(self.cache@),
    {
        let cache = self.cache.as_str();
        let n = cache.unicode_len();
        let home = HOME_COMPONENT;
        proof {
            reveal_strlit("$HOME");
        }
        if n < 5 {
            return false;
        }
        let mut i: usize = 0;
        while i < 5
            invariant
                i <= 5 <= n,
                n == cache@.len(),
                cache@ == self.cache@,
                home@ == HOME_COMPONENT@,
                home@.len() == 5,
                forall|j: int| 0 <= j < i ==> cache@[j] == home@[j],
            decreases 5 - i,
        {
            if cache.get_char(i) != home.get_char(i) {
                assert(cache@.take(5)[i as int] != home@[i as int]);
                return false;
            }
            i = i + 1;
        }
        assert(cache@.take(5) =~= home@);
        n == 5 || cache.get_char(5) == '/'
    }
}

} // verus!
