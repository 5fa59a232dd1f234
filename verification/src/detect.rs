//! Project detection: a pure predicate over a directory's file listing that
//! holds exactly when at least one file carries one of a configured set of
//! extensions.
//!
//! A file name has an extension exactly when it holds a dot after its first
//! character; the extension is everything after the last such dot. A name
//! whose only dot is its first character (a hidden file) has none.

use vstd::prelude::*;

verus! {

/// Position `d` is the last dot of `name`, and not its first character.
pub open spec fn ext_dot(name: Seq<char>, d: int) -> bool {
    &&& 0 < d < name.len()
    &&& name[d] == '.'
    &&& forall|k: int| d < k < name.len() ==> name[k] != '.'
}

/// The extension of a file name: the text after its last dot, provided that
/// dot is not the leading character; otherwise nothing.
pub open spec fn extension_of(name: Seq<char>) -> Option<Seq<char>> {
    if exists|d: int| ext_dot(name, d) {
        let d = choose|d: int| ext_dot(name, d);
        Some(name.subrange(d + 1, name.len() as int))
    } else {
        None
    }
}

/// The file name carries one of the given extensions.
pub open spec fn file_matches(name: Seq<char>, exts: Seq<Seq<char>>) -> bool {
    exists|k: int| 0 <= k < exts.len() && extension_of(name) == Some(exts[k])
}

/// Some file of the listing carries one of the given extensions.
pub open spec fn any_file_matches(files: Seq<Seq<char>>, exts: Seq<Seq<char>>) -> bool {
    exists|i: int| 0 <= i < files.len() && file_matches(files[i], exts)
}

/// A read-only view of one directory level: the names of the files in it.
pub struct ScanContext {
    pub files: Vec<String>,
}

impl View for ScanContext {
    type V = Seq<Seq<char>>;

    open spec fn view(&self) -> Seq<Seq<char>> {
        self.files.deep_view()
    }
}

/// The last dot of `name` that is not its leading character, or nothing.
fn last_ext_dot(name: &str, n: usize) -> (r: Option<usize>)
    requires
        n == name@.len(),
    ensures
        match r {
            Some(d) => ext_dot(name@, d as int),
            None => !exists|d: int| ext_dot(name@, d),
        },
{
    let mut i = n;
    while i > 0
        invariant
            0 <= i <= n,
            n == name@.len(),
            forall|k: int| i <= k < n ==> name@[k] != '.',
        decreases i,
    {
        i = i - 1;
        if name.get_char(i) == '.' {
            if i > 0 {
                return Some(i);
            } else {
                proof {
                    assert forall|d: int| !ext_dot(name@, d) by {}
                }
                return None;
            }
        }
    }
    proof {
        assert forall|d: int| !ext_dot(name@, d) by {}
    }
    None
}

/// Whether `name@[from..]` equals `ext@`, character for character.
fn suffix_equals(name: &str, from: usize, n: usize, ext: &str) -> (r: bool)
    requires
        n == name@.len(),
        from <= n,
    ensures
        r == (name@.subrange(from as int, n as int) == ext@),
{
    let m = ext.unicode_len();
    if n - from != m {
        proof {
            assert(name@.subrange(from as int, n as int).len() != ext@.len());
        }
        return false;
    }
    let mut k: usize = 0;
    while k < m
        invariant
            0 <= k <= m,
            n == name@.len(),
            m == ext@.len(),
            m == n - from,
            from <= n,
            forall|t: int| 0 <= t < k ==> name@[from + t] == ext@[t],
        decreases m - k,
    {
        if name.get_char(from + k) != ext.get_char(k) {
            proof {
                assert(name@.subrange(from as int, n as int)[k as int] != ext@[k as int]);
            }
            return false;
        }
        k = k + 1;
    }
    proof {
        assert(name@.subrange(from as int, n as int) =~= ext@);
    }
    true
}

impl ScanContext {
    /// Wraps a directory listing for detection.
    pub fn new(files: Vec<String>) -> (c: ScanContext)
        ensures
            c@ == files.deep_view(),
    {
        ScanContext { files }
    }

    /// True exactly when at least one file of the listing carries one of the
    /// given extensions — false on a listing with no matching file, true as
    /// soon as one exists, however many files there are besides.
    pub fn is_match(&self, extensions: &Vec<String>) -> (r: bool)
        ensures
            r == any_file_matches(self@, extensions.deep_view()),
    {
        let ghost fsv = self@;
        let ghost exv = extensions.deep_view();
        let nf = self.files.len();
        let mut i: usize = 0;
        while i < nf
            invariant
                0 <= i <= nf,
                nf == self.files.len(),
                fsv == self@,
                exv == extensions.deep_view(),
                fsv.len() == nf,
                exv.len() == extensions.len(),
                forall|q: int| 0 <= q < i ==> !file_matches(fsv[q], exv),
            decreases nf - i,
        {
            let name: &String = &self.files[i];
            proof {
                assert(name@ == fsv[i as int]);
            }
            let n = name.as_str().unicode_len();
            match last_ext_dot(name.as_str(), n) {
                Some(d) => {
                    let ne = extensions.len();
                    let mut k: usize = 0;
                    while k < ne
                        invariant
                            0 <= k <= ne,
                            ne == extensions.len(),
                            exv == extensions.deep_view(),
                            exv.len() == ne,
                            n == name@.len(),
                            d < n,
                            ext_dot(name@, d as int),
                            0 <= i < fsv.len(),
                            name@ == fsv[i as int],
                            fsv == self@,
                            forall|t: int| 0 <= t < k ==> Some(exv[t]) != extension_of(name@),
                        decreases ne - k,
                    {
                        proof {
                            assert(extensions[k as int]@ == exv[k as int]);
                        }
                        if suffix_equals(name.as_str(), d + 1, n, extensions[k].as_str()) {
                            proof {
                                let dc = choose|dd: int| ext_dot(name@, dd);
                                assert(dc == d as int);
                                assert(extension_of(name@) == Some(exv[k as int]));
                                assert(file_matches(fsv[i as int], exv));
                                assert(any_file_matches(self@, extensions.deep_view()));
                            }
                            return true;
                        }
                        k = k + 1;
                    }
                    proof {
                        assert forall|t: int| 0 <= t < exv.len()
                            implies extension_of(name@) != Some(exv[t]) by {}
                        assert(!file_matches(fsv[i as int], exv));
                    }
                },
                None => {
                    proof {
                        assert(extension_of(name@) is None);
                        assert(!file_matches(fsv[i as int], exv));
                    }
                },
            }
            i = i + 1;
        }
        proof {
            assert forall|q: int| 0 <= q < fsv.len() implies !file_matches(fsv[q], exv) by {}
        }
        false
    }
}

} // verus!
