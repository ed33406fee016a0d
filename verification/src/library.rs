use vstd::prelude::*;
use vstd::string::StrSliceExecFns;
use vstd::string::StringExecFns;

verus! {

/// The character contents of a list of strings.
pub open spec fn views(v: Seq<String>) -> Seq<Seq<char>> {
    v.map_values(|s: String| s@)
}

/// The fields of `s` between colons, empty ones included.
pub open spec fn colon_fields(s: Seq<char>) -> Seq<Seq<char>>
    decreases s.len(),
{
    if s.len() == 0 {
        seq![Seq::empty()]
    } else {
        let f = colon_fields(s.drop_last());
        if s.last() == ':' {
            f.push(Seq::empty())
        } else {
            f.update(f.len() - 1, f.last().push(s.last()))
        }
    }
}

/// The file name appended to each directory of a library search path.
pub open spec fn lib_suffix() -> Seq<char> {
    "/libnvidia-ml.so.1"@
}

/// The library file in each non-empty directory of `dirs`.
pub open spec fn lib_candidates(dirs: Seq<Seq<char>>) -> Seq<Seq<char>>
    decreases dirs.len(),
{
    if dirs.len() == 0 {
        Seq::empty()
    } else {
        let r = lib_candidates(dirs.drop_last());
        if dirs.last().len() > 0 {
            r.push(dirs.last() + lib_suffix())
        } else {
            r
        }
    }
}

/// `acc` followed by each item of `items` not already present.
pub open spec fn append_unique(acc: Seq<Seq<char>>, items: Seq<Seq<char>>) -> Seq<Seq<char>>
    decreases items.len(),
{
    if items.len() == 0 {
        acc
    } else {
        let r = append_unique(acc, items.drop_last());
        if r.contains(items.last()) {
            r
        } else {
            r.push(items.last())
        }
    }
}

/// Well-known places of the NVML library: dynamic-linker names first, then
/// distribution, container, driver-operator, CUDA stub and WSL locations.
pub open spec fn builtin_paths() -> Seq<Seq<char>> {
    seq![
        "libnvidia-ml.so.1"@,
        "libnvidia-ml.so"@,
        "/usr/lib/x86_64-linux-gnu/libnvidia-ml.so.1"@,
        "/usr/lib64/libnvidia-ml.so.1"@,
        "/usr/lib/aarch64-linux-gnu/libnvidia-ml.so.1"@,
        "/usr/local/nvidia/lib64/libnvidia-ml.so.1"@,
        "/usr/local/nvidia/lib/libnvidia-ml.so.1"@,
        "/run/nvidia/driver/usr/lib/x86_64-linux-gnu/libnvidia-ml.so.1"@,
        "/run/nvidia/driver/usr/lib64/libnvidia-ml.so.1"@,
        "/usr/local/cuda/lib64/stubs/libnvidia-ml.so"@,
        "/usr/lib/wsl/lib/libnvidia-ml.so.1"@,
    ]
}

/// The candidate library paths in the order they are tried: the user's
/// path, then the library file in each directory of the dynamic-linker
/// search path, then the well-known places, each path once after the first.
pub open spec fn search_paths(user_path: Option<Seq<char>>, ld_library_path: Option<Seq<char>>) -> Seq<
    Seq<char>,
> {
    let start = match user_path {
        Some(p) => seq![p],
        None => Seq::empty(),
    };
    let from_ld = match ld_library_path {
        Some(l) => lib_candidates(colon_fields(l)),
        None => Seq::empty(),
    };
    append_unique(append_unique(start, from_ld), builtin_paths())
}

fn builtin_path_list() -> (r: Vec<String>)
    ensures
        views(r@) == builtin_paths(),
{
    let mut r: Vec<String> = Vec::new();
    r.push(String::from_str("libnvidia-ml.so.1"));
    r.push(String::from_str("libnvidia-ml.so"));
    r.push(String::from_str("/usr/lib/x86_64-linux-gnu/libnvidia-ml.so.1"));
    r.push(String::from_str("/usr/lib64/libnvidia-ml.so.1"));
    r.push(String::from_str("/usr/lib/aarch64-linux-gnu/libnvidia-ml.so.1"));
    r.push(String::from_str("/usr/local/nvidia/lib64/libnvidia-ml.so.1"));
    r.push(String::from_str("/usr/local/nvidia/lib/libnvidia-ml.so.1"));
    r.push(String::from_str("/run/nvidia/driver/usr/lib/x86_64-linux-gnu/libnvidia-ml.so.1"));
    r.push(String::from_str("/run/nvidia/driver/usr/lib64/libnvidia-ml.so.1"));
    r.push(String::from_str("/usr/local/cuda/lib64/stubs/libnvidia-ml.so"));
    r.push(String::from_str("/usr/lib/wsl/lib/libnvidia-ml.so.1"));
    assert(views(r@) =~= builtin_paths());
    r
}

fn contains_string(v: &Vec<String>, s: &String) -> (r: bool)
    ensures
        r == views(v@).contains(s@),
{
    let mut i: usize = 0;
    while i < v.len()
        invariant
            0 <= i <= v@.len(),
            forall|j: int| 0 <= j < i ==> #[trigger] v@[j]@ != s@,
        decreases v.len() - i,
    {
        if v[i] == *s {
            assert(views(v@)[i as int] == s@);
            return true;
        }
        i = i + 1;
    }
    proof {
        if views(v@).contains(s@) {
            let j = choose|j: int| 0 <= j < views(v@).len() && views(v@)[j] == s@;
            assert(v@[j]@ == s@);
        }
    }
    false
}

fn push_unique(acc: &mut Vec<String>, items: Vec<String>)
    ensures
        views(final(acc)@) == append_unique(views(old(acc)@), views(items@)),
{
    let ghost a0 = views(acc@);
    let ghost its = views(items@);
    let n = items.len();
    let mut rest = items;
    let mut i: usize = 0;
    while i < n
        invariant
            0 <= i <= n,
            n == its.len(),
            rest@.len() == n - i,
            views(rest@) == its.skip(i as int),
            views(acc@) == append_unique(a0, its.take(i as int)),
        decreases n - i,
    {
        let ghost before = rest@;
        let item = rest.remove(0);
        proof {
            assert(views(before)[0] == item@);
            assert(its[i as int] == item@);
            assert(its.take(i + 1).drop_last() =~= its.take(i as int));
            assert forall|k: int| 0 <= k < views(rest@).len() implies views(rest@)[k] == its.skip(
                i + 1,
            )[k] by {
                assert(rest@[k] == before[k + 1]);
                assert(views(before)[k + 1] == its.skip(i as int)[k + 1]);
            }
            assert(views(rest@) =~= its.skip(i + 1));
        }
        if !contains_string(acc, &item) {
            acc.push(item);
            assert(views(acc@) =~= append_unique(a0, its.take(i + 1)));
        }
        i = i + 1;
    }
    assert(its.take(n as int) =~= its);
}

proof fn lemma_fields_nonempty(s: Seq<char>)
    ensures
        colon_fields(s).len() >= 1,
    decreases s.len(),
{
    if s.len() > 0 {
        lemma_fields_nonempty(s.drop_last());
    }
}

/// The library file in each non-empty directory of a colon-separated list.
fn ld_candidates(ld: &str) -> (r: Vec<String>)
    ensures
        views(r@) == lib_candidates(colon_fields(ld@)),
{
    let n = ld.unicode_len();
    let mut r: Vec<String> = Vec::new();
    let mut start: usize = 0;
    let mut i: usize = 0;
    let ghost mut done: Seq<Seq<char>> = Seq::empty();
    assert(ld@.take(0) =~= Seq::<char>::empty());
    assert(ld@.subrange(0, 0) =~= Seq::<char>::empty());
    assert(colon_fields(ld@.take(0)) =~= done.push(ld@.subrange(0, 0)));
    while i < n
        invariant
            n == ld@.len(),
            0 <= start <= i <= n,
            colon_fields(ld@.take(i as int)) == done.push(ld@.subrange(start as int, i as int)),
            views(r@) == lib_candidates(done),
        decreases n - i,
    {
        let c = ld.get_char(i);
        proof {
            lemma_fields_nonempty(ld@.take(i as int));
            assert(ld@.take(i + 1).drop_last() =~= ld@.take(i as int));
            assert(ld@.take(i + 1).last() == c);
        }
        if c == ':' {
            let field = ld.substring_char(start, i);
            if !field.is_empty() {
                let path = String::from_str(field).concat("/libnvidia-ml.so.1");
                r.push(path);
            }
            proof {
                let cur = ld@.subrange(start as int, i as int);
                assert(done.push(cur).drop_last() =~= done);
                done = done.push(cur);
                assert(ld@.subrange(i + 1, i + 1) =~= Seq::<char>::empty());
                assert(colon_fields(ld@.take(i + 1)) =~= done.push(ld@.subrange(i + 1, i + 1)));
                assert(views(r@) =~= lib_candidates(done));
            }
            start = i + 1;
        } else {
            proof {
                let cur = ld@.subrange(start as int, i as int);
                assert(cur.push(c) =~= ld@.subrange(start as int, i + 1));
                assert(colon_fields(ld@.take(i + 1)) =~= done.push(
                    ld@.subrange(start as int, i + 1),
                ));
            }
        }
        i = i + 1;
    }
    let field = ld.substring_char(start, n);
    proof {
        assert(ld@.take(n as int) =~= ld@);
        let cur = ld@.subrange(start as int, n as int);
        assert(done.push(cur).drop_last() =~= done);
    }
    if !field.is_empty() {
        let path = String::from_str(field).concat("/libnvidia-ml.so.1");
        r.push(path);
    }
    proof {
        assert(views(r@) =~= lib_candidates(colon_fields(ld@)));
    }
    r
}

/// The NVML library paths to try, in order; see `search_paths`.
pub fn lib_search_paths(user_path: Option<&str>, ld_library_path: Option<&str>) -> (r: Vec<String>)
    ensures
        views(r@) == search_paths(
            match user_path {
                Some(p) => Some(p@),
                None => None,
            },
            match ld_library_path {
                Some(l) => Some(l@),
                None => None,
            },
        ),
{
    let mut paths: Vec<String> = Vec::new();
    match user_path {
        Some(p) => {
            paths.push(String::from_str(p));
        },
        None => {},
    }
    let ghost start = views(paths@);
    let from_ld = match ld_library_path {
        Some(l) => ld_candidates(l),
        None => Vec::new(),
    };
    push_unique(&mut paths, from_ld);
    push_unique(&mut paths, builtin_path_list());
    proof {
        match user_path {
            Some(p) => assert(start =~= seq![p@]),
            None => assert(start =~= Seq::<Seq<char>>::empty()),
        }
        match ld_library_path {
            Some(l) => {},
            None => assert(views(Seq::<String>::empty()) =~= Seq::<Seq<char>>::empty()),
        }
    }
    paths
}

proof fn lemma_append_unique(acc: Seq<Seq<char>>, items: Seq<Seq<char>>)
    ensures
        append_unique(acc, items).len() >= acc.len(),
        append_unique(acc, items).subrange(0, acc.len() as int) == acc,
        acc.no_duplicates() ==> append_unique(acc, items).no_duplicates(),
        forall|i: int| 0 <= i < items.len() ==> append_unique(acc, items).contains(#[trigger] items[i]),
        forall|x: Seq<char>| append_unique(acc, items).contains(x) ==> acc.contains(x) || items.contains(x),
    decreases items.len(),
{
    if items.len() > 0 {
        let d = items.drop_last();
        lemma_append_unique(acc, d);
        let r = append_unique(acc, d);
        let last = items.last();
        if !r.contains(last) {
            assert(r.push(last).subrange(0, acc.len() as int) =~= r.subrange(0, acc.len() as int));
        }
        let out = append_unique(acc, items);
        assert forall|i: int| 0 <= i < items.len() implies out.contains(#[trigger] items[i]) by {
            if i < items.len() - 1 {
                assert(items[i] == d[i]);
                assert(r.contains(d[i]));
                let x = choose|x: int| 0 <= x < r.len() && r[x] == d[i];
                assert(out[x] == d[i]);
            } else if r.contains(last) {
            } else {
                assert(out[r.len() as int] == last);
            }
        }
        assert forall|x: Seq<char>| out.contains(x) implies acc.contains(x) || items.contains(x) by {
            let j = choose|j: int| 0 <= j < out.len() && out[j] == x;
            if j < r.len() {
                assert(r[j] == x);
                if d.contains(x) {
                    let t = choose|t: int| 0 <= t < d.len() && d[t] == x;
                    assert(items[t] == x);
                }
            } else {
                assert(items[items.len() - 1] == x);
            }
        }
    }
}

/// The user's path, when given, is tried first, no path is tried twice, and
/// every well-known place is tried.
pub proof fn law_search_paths_order(user_path: Option<Seq<char>>, ld_library_path: Option<Seq<char>>)
    ensures
        search_paths(user_path, ld_library_path).no_duplicates(),
        user_path matches Some(u) ==> search_paths(user_path, ld_library_path)[0] == u,
        forall|i: int|
            0 <= i < builtin_paths().len() ==> search_paths(user_path, ld_library_path).contains(
                #[trigger] builtin_paths()[i],
            ),
{
    let start = match user_path {
        Some(p) => seq![p],
        None => Seq::<Seq<char>>::empty(),
    };
    let from_ld = match ld_library_path {
        Some(l) => lib_candidates(colon_fields(l)),
        None => Seq::empty(),
    };
    assert(start.no_duplicates());
    lemma_append_unique(start, from_ld);
    let mid = append_unique(start, from_ld);
    lemma_append_unique(mid, builtin_paths());
    let r = append_unique(mid, builtin_paths());
    if user_path is Some {
        assert(r.subrange(0, mid.len() as int)[0] == mid[0]);
        assert(mid.subrange(0, start.len() as int)[0] == start[0]);
    }
}

} // verus!
