//! Where the SDK's shared libraries (`libhcnetsdk`, `libPlayCtrl`) are
//! looked for and under which file names. Loading them is the
//! application's work.

use vstd::prelude::*;

use crate::text::str_texts;

verus! {

broadcast use vstd::string::group_string_axioms;

/// Directories, relative to the working directory, where the SDK is looked
/// for after `HCNETSDK_LIB_DIR` (the layout of the SDK package).
pub fn workspace_lib_dirs() -> (ds: &'static [&'static str])
    ensures
        str_texts(ds@) == seq![
            "Linux64/lib"@,
            "Linux32/lib"@,
            "../Linux64/lib"@,
            "../../Linux64/lib"@,
            "win32/lib"@,
        ],
{
    let ds: &'static [&'static str] = &[
        "Linux64/lib",
        "Linux32/lib",
        "../Linux64/lib",
        "../../Linux64/lib",
        "win32/lib",
    ];
    assert(str_texts(ds@) =~= seq![
        "Linux64/lib"@,
        "Linux32/lib"@,
        "../Linux64/lib"@,
        "../../Linux64/lib"@,
        "win32/lib"@,
    ]);
    ds
}

/// System directories where the SDK is looked for last.
pub fn system_lib_dirs() -> (ds: &'static [&'static str])
    ensures
        str_texts(ds@) == seq![
            "/usr/local/lib"@,
            "/usr/lib"@,
            "/usr/lib/x86_64-linux-gnu"@,
        ],
{
    let ds: &'static [&'static str] = &["/usr/local/lib", "/usr/lib", "/usr/lib/x86_64-linux-gnu"];
    assert(str_texts(ds@) =~= seq![
        "/usr/local/lib"@,
        "/usr/lib"@,
        "/usr/lib/x86_64-linux-gnu"@,
    ]);
    ds
}

/// `s` without its leading `lib`s, as `trim_start_matches("lib")` gives it.
pub open spec fn strip_lib(s: Seq<char>) -> Seq<char>
    decreases s.len(),
{
    if s.len() >= 3 && s[0] == 'l' && s[1] == 'i' && s[2] == 'b' {
        strip_lib(s.skip(3))
    } else {
        s
    }
}

/// The files tried for one library name, for each suffix in turn: the name
/// without its `lib` prefix, then the name as it is.
pub open spec fn name_files(name: Seq<char>) -> Seq<Seq<char>> {
    seq![
        strip_lib(name) + ".so"@,
        name + ".so"@,
        strip_lib(name) + ".so.1"@,
        name + ".so.1"@,
        strip_lib(name) + ".dylib"@,
        name + ".dylib"@,
        strip_lib(name) + ".dll"@,
        name + ".dll"@,
    ]
}

/// The file names tried in each search directory for the library `stem`,
/// in order: for `stem`, then for `lib` + `stem`.
pub open spec fn library_files(stem: Seq<char>) -> Seq<Seq<char>> {
    name_files(stem) + name_files("lib"@ + stem)
}

/// The texts of a sequence of strings.
pub open spec fn texts(v: Seq<String>) -> Seq<Seq<char>> {
    v.map_values(|f: String| f@)
}

fn strip_lib_exec(s: &str) -> (r: String)
    ensures
        r@ == strip_lib(s@),
{
    let v = crate::text::chars_of(s);
    let n = v.len();
    let mut i: usize = 0;
    assert(v@.skip(0) =~= v@);
    while n - i >= 3 && v[i] == 'l' && v[i + 1] == 'i' && v[i + 2] == 'b'
        invariant
            v@ == s@,
            n == v@.len(),
            i <= n,
            strip_lib(s@) == strip_lib(v@.skip(i as int)),
        decreases n - i,
    {
        let ghost t = v@.skip(i as int);
        assert(t.skip(3) =~= v@.skip(i + 3));
        assert(t[0] == v@[i as int] && t[1] == v@[i + 1] && t[2] == v@[i + 2]);
        i = i + 3;
    }
    let ghost t = v@.skip(i as int);
    proof {
        if t.len() >= 3 {
            assert(t[0] == v@[i as int] && t[1] == v@[i + 1] && t[2] == v@[i + 2]);
        }
    }
    assert(v@.skip(0) =~= v@);
    assert(v@.subrange(i as int, n as int) =~= t);
    s.substring_char(i, n).to_owned()
}

fn push_files(out: &mut Vec<String>, name: &str)
    ensures
        texts(final(out)@) == texts(old(out)@)
            + name_files(name@),
{
    let base = strip_lib_exec(name);
    let ghost before = texts(out@);
    let suffixes: [&str; 4] = [".so", ".so.1", ".dylib", ".dll"];
    let mut k: usize = 0;
    let ghost mut added: Seq<Seq<char>> = Seq::empty();
    while k < 4
        invariant
            0 <= k <= 4,
            base@ == strip_lib(name@),
            suffixes@.map_values(|x: &str| x@) == seq![".so"@, ".so.1"@, ".dylib"@, ".dll"@],
            texts(out@) == before + added,
            added.len() == 2 * k,
            forall|j: int|
                0 <= j < 2 * k ==> #[trigger] added[j] == name_files(name@)[j],
        decreases 4 - k,
    {
        let suffix = suffixes[k];
        assert(suffix@ == suffixes@.map_values(|x: &str| x@)[k as int]);
        let mut a = base.clone();
        a.append(suffix);
        let mut b = name.to_owned();
        b.append(suffix);
        assert(a@ == strip_lib(name@) + suffix@);
        assert(b@ == name@ + suffix@);
        let ghost prev = out@;
        out.push(a);
        out.push(b);
        assert(out@ =~= prev.push(a).push(b));
        assert(texts(out@) =~= texts(prev).push(a@).push(b@));
        proof {
            added = added.push(strip_lib(name@) + suffix@).push(name@ + suffix@);
        }
        assert(texts(out@) =~= before + added);
        k = k + 1;
    }
    assert(added =~= name_files(name@));
}

/// The file names tried in each search directory for the library `stem`.
pub fn library_file_names(stem: &str) -> (names: Vec<String>)
    ensures
        texts(names@) == library_files(stem@),
{
    let mut names: Vec<String> = Vec::new();
    assert(texts(names@) =~= Seq::<Seq<char>>::empty());
    push_files(&mut names, stem);
    let mut lib_name = "lib".to_owned();
    lib_name.append(stem);
    push_files(&mut names, lib_name.as_str());
    assert(Seq::<Seq<char>>::empty() + name_files(stem@) + name_files(lib_name@) =~= library_files(
        stem@,
    ));
    names
}

/// The directory named by `HCNETSDK_LIB_DIR`, if it is set.
pub open spec fn env_dirs<T>(env_dir: Option<T>) -> Seq<T> {
    match env_dir {
        Some(d) => seq![d],
        None => Seq::empty(),
    }
}

/// The order in which the library is looked for: the directory of
/// `HCNETSDK_LIB_DIR` first, if set, then the workspace directories that
/// exist, then the system directories that exist, each list in its order.
pub fn search_dir_order<T>(env_dir: Option<T>, workspace_found: Vec<T>, system_found: Vec<T>) -> (d:
    Vec<T>)
    ensures
        d@ == env_dirs(env_dir) + workspace_found@ + system_found@,
{
    let mut d: Vec<T> = Vec::new();
    match env_dir {
        Some(e) => d.push(e),
        None => {},
    }
    assert(d@ =~= env_dirs(env_dir));
    let mut ws = workspace_found;
    let mut sys = system_found;
    d.append(&mut ws);
    d.append(&mut sys);
    d
}

/// The message when the library `stem` is found in none of the search
/// directories.
pub open spec fn not_found_text(stem: Seq<char>) -> Seq<char> {
    "Could not find lib"@ + stem + ".so. Set HCNETSDK_LIB_DIR or place the SDK under Linux64/lib/."@
}

pub fn lib_not_found_message(stem: &str) -> (m: String)
    ensures
        m@ == not_found_text(stem@),
{
    let mut m = "Could not find lib".to_owned();
    m.append(stem);
    m.append(".so. Set HCNETSDK_LIB_DIR or place the SDK under Linux64/lib/.");
    m
}

} // verus!
