//! Which files of the plugin directory are plugins, and the name each one
//! is called with.

use crate::commands::same_text;
use crate::host::PluginFile;
use vstd::prelude::*;

verus! {

/// The index of the last `.` of `s`, or -1.
pub open spec fn last_dot(s: Seq<char>) -> int
    decreases s.len(),
{
    if s.len() == 0 {
        -1
    } else if s.last() == '.' {
        s.len() - 1
    } else {
        last_dot(s.drop_last())
    }
}

/// The plugin name of a file named `file_name`: its stem when its extension
/// is `lua`. A name whose only dot leads it has no extension.
pub open spec fn plugin_spec(file_name: Seq<char>) -> Option<Seq<char>> {
    let d = last_dot(file_name);
    if d > 0 && file_name.subrange(d + 1, file_name.len() as int) == "lua"@ {
        Some(file_name.subrange(0, d))
    } else {
        None
    }
}

proof fn lemma_last_dot_before(s: Seq<char>, k: int)
    requires
        0 <= k <= s.len(),
        forall|j: int| k <= j < s.len() ==> #[trigger] s[j] != '.',
    ensures
        last_dot(s) == last_dot(s.subrange(0, k)),
    decreases s.len() - k,
{
    if k == s.len() {
        assert(s.subrange(0, k) =~= s);
    } else {
        let t = s.drop_last();
        assert forall|j: int| k <= j < t.len() implies #[trigger] t[j] != '.' by {
            assert(t[j] == s[j]);
        }
        lemma_last_dot_before(t, k);
        assert(t.subrange(0, k) =~= s.subrange(0, k));
    }
}

/// The name a plugin file is called with, if the file is a plugin.
pub fn plugin_name(file_name: &str) -> (r: Option<String>)
    ensures
        match r {
            None => plugin_spec(file_name@) is None,
            Some(n) => plugin_spec(file_name@) == Some(n@),
        },
{
    let n = file_name.unicode_len();
    let mut k: usize = n;
    while k > 0 && file_name.get_char(k - 1) != '.'
        invariant
            n == file_name@.len(),
            k <= n,
            forall|j: int| k <= j < n ==> #[trigger] file_name@[j] != '.',
        decreases k,
    {
        k = k - 1;
    }
    proof {
        lemma_last_dot_before(file_name@, k as int);
        if k > 0 {
            assert(file_name@.subrange(0, k as int).last() == '.');
        } else {
            assert(file_name@.subrange(0, 0).len() == 0);
        }
    }
    if k <= 1 {
        return None;
    }
    let ext = file_name.substring_char(k, n);
    if same_text(ext, "lua") {
        Some(file_name.substring_char(0, k - 1).to_owned())
    } else {
        None
    }
}

/// An entry of the plugin directory, as the directory listing gave it.
pub struct DirEntry {
    /// The path to hand to the interpreter.
    pub path: String,
    /// The entry's own name.
    pub file_name: String,
    /// Whether the entry is a regular file.
    pub is_file: bool,
}

/// The plugins among `entries`, in listing order.
pub open spec fn plugins_spec(entries: Seq<DirEntry>) -> Seq<(Seq<char>, Seq<char>)>
    decreases entries.len(),
{
    if entries.len() == 0 {
        Seq::empty()
    } else {
        let rest = plugins_spec(entries.drop_last());
        let e = entries.last();
        if e.is_file && plugin_spec(e.file_name@) is Some {
            rest.push((e.path@, plugin_spec(e.file_name@).unwrap()))
        } else {
            rest
        }
    }
}

pub open spec fn files_view(v: Seq<PluginFile>) -> Seq<(Seq<char>, Seq<char>)> {
    v.map_values(|p: PluginFile| (p.path@, p.name@))
}

/// The plugins among the entries of the plugin directory, in listing order:
/// regular files whose extension is `lua`, each with its stem as its name.
pub fn select_plugins(entries: &Vec<DirEntry>) -> (r: Vec<PluginFile>)
    ensures
        files_view(r@) == plugins_spec(entries@),
{
    let mut r: Vec<PluginFile> = Vec::new();
    let mut i: usize = 0;
    while i < entries.len()
        invariant
            i <= entries.len(),
            files_view(r@) == plugins_spec(entries@.subrange(0, i as int)),
        decreases entries.len() - i,
    {
        let e = &entries[i];
        proof {
            assert(entries@.subrange(0, i + 1).drop_last() =~= entries@.subrange(0, i as int));
        }
        if e.is_file {
            match plugin_name(e.file_name.as_str()) {
                None => {},
                Some(name) => {
                    let ghost before = r@;
                    let p = PluginFile { path: e.path.as_str().to_owned(), name };
                    r.push(p);
                    proof {
                        assert(files_view(r@) =~= files_view(before).push((p.path@, p.name@)));
                    }
                },
            }
        }
        i = i + 1;
    }
    assert(entries@.subrange(0, entries.len() as int) =~= entries@);
    r
}

} // verus!
