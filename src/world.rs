//! Identities of the files a compilation can read, the errors that reading
//! them can give, and the table that ties identities to host paths.

use vstd::prelude::*;
use vstd::slice::slice_to_vec;
use vstd::utf8::*;

use crate::assoc::{
    assoc_map, lemma_assoc_domain, lemma_assoc_lookup, lemma_assoc_push, lemma_assoc_update,
    unique_keys,
};

verus! {

/// Why a file could not be read.
#[derive(Clone, Debug, Hash)]
pub enum FileError {
    /// Nothing exists at the resolved host path, which is given.
    NotFound(String),
    /// The resolved host path is a directory.
    IsDirectory,
    /// The path escapes its root, or the root may not be read.
    AccessDenied,
    /// The content is not valid UTF-8.
    InvalidUtf8,
    /// Any other failure, with its message.
    Other(String),
}

/// `bytes` without a leading UTF-8 byte-order mark.
pub open spec fn strip_bom(bytes: Seq<u8>) -> Seq<u8> {
    if bytes.len() >= 3 && bytes[0] == 0xEF && bytes[1] == 0xBB && bytes[2] == 0xBF {
        bytes.skip(3)
    } else {
        bytes
    }
}

/// Relies on std::str::from_utf8: it accepts exactly the valid UTF-8 byte
/// sequences, whose characters are then those that the bytes encode.
#[verifier::external_body]
fn utf8_decode(bytes: &[u8]) -> (r: Option<String>)
    ensures
        r is Some <==> valid_utf8(bytes@),
        r matches Some(s) ==> encode_utf8(s@) == bytes@,
{
    std::str::from_utf8(bytes).ok().map(str::to_owned)
}

/// The text of a source file from its raw bytes, after a leading byte-order
/// mark is dropped.
pub fn decode_source_text(bytes: &[u8]) -> (r: Result<String, FileError>)
    ensures
        r is Ok <==> valid_utf8(strip_bom(bytes@)),
        r matches Ok(s) ==> encode_utf8(s@) == strip_bom(bytes@),
        r matches Err(e) ==> e is InvalidUtf8,
{
    let body: &[u8] = if bytes.len() >= 3 && bytes[0] == 0xEF && bytes[1] == 0xBB && bytes[2] == 0xBF {
        let (_, rest) = bytes.split_at(3);
        assert(rest@ =~= bytes@.skip(3));
        rest
    } else {
        bytes
    };
    match utf8_decode(body) {
        Some(text) => Ok(text),
        None => Err(FileError::InvalidUtf8),
    }
}

/// The rooted, normalised virtual path of `name`.
pub uninterp spec fn rooted_vpath_of(name: Seq<char>) -> Seq<char>;

/// Relies on typst_syntax::VirtualPath::new and as_rooted_path: the path
/// made absolute within its root, with `.` and `..` components resolved.
#[verifier::external_body]
fn rooted_vpath(name: &str) -> (r: String)
    ensures
        r@ == rooted_vpath_of(name@),
{
    typst_syntax::VirtualPath::new(name).as_rooted_path().to_string_lossy().into_owned()
}

/// A file as the compiler knows it: a virtual path, within a package when
/// `package` names one.
#[derive(Debug)]
pub struct FileIdentity {
    /// The package specifier (`@namespace/name:version`), if any.
    pub package: Option<String>,
    /// The rooted virtual path.
    pub vpath: String,
}

/// What tells two identities apart.
pub type IdView = (Option<Seq<char>>, Seq<char>);

/// The view of an optional string.
pub open spec fn opt_view(s: Option<String>) -> Option<Seq<char>> {
    match s {
        Some(t) => Some(t@),
        None => None,
    }
}

impl View for FileIdentity {
    type V = IdView;

    open spec fn view(&self) -> IdView {
        (opt_view(self.package), self.vpath@)
    }
}

fn same_text_opt(a: &Option<String>, b: &Option<String>) -> (r: bool)
    ensures
        r == (opt_view(*a) == opt_view(*b)),
{
    match (a, b) {
        (Some(x), Some(y)) => *x == *y,
        (None, None) => true,
        _ => false,
    }
}

impl FileIdentity {
    /// The identity of the project file `name`.
    pub fn local(name: &str) -> (r: Self)
        ensures
            r@ == (None::<Seq<char>>, rooted_vpath_of(name@)),
    {
        FileIdentity { package: None, vpath: rooted_vpath(name) }
    }

    /// Whether `self` and `other` are the same file.
    pub fn same(&self, other: &Self) -> (r: bool)
        ensures
            r == (self@ == other@),
    {
        let r = same_text_opt(&self.package, &other.package) && self.vpath == other.vpath;
        proof {
            if self.vpath@ == other.vpath@ && opt_view(self.package) == opt_view(other.package) {
                assert(self@ == other@);
            }
        }
        r
    }

    /// A copy of `self`.
    pub fn duplicate(&self) -> (r: Self)
        ensures
            r@ == self@,
    {
        FileIdentity { package: self.package.clone(), vpath: self.vpath.clone() }
    }
}

/// Why the active file could not be switched.
#[derive(Clone, Copy, Debug, PartialEq, Eq, Structural)]
pub enum TypstCompilerError {
    FileNotFound,
}

/// The files known to a compilation apart from the disk: the entry file,
/// contents supplied directly (the edited buffer, files the host has read),
/// and the two-way table between identities and host paths.
pub struct FileRegistry {
    main: FileIdentity,
    contents: Vec<(FileIdentity, Vec<u8>)>,
    id_paths: Vec<(FileIdentity, String)>,
    path_ids: Vec<(String, FileIdentity)>,
}

/// The supplied contents as identity/bytes pairs.
pub open spec fn contents_view(s: Seq<(FileIdentity, Vec<u8>)>) -> Seq<(IdView, Seq<u8>)> {
    s.map_values(|p: (FileIdentity, Vec<u8>)| (p.0@, p.1@))
}

/// The identity-to-path table as pairs.
pub open spec fn id_paths_view(s: Seq<(FileIdentity, String)>) -> Seq<(IdView, Seq<char>)> {
    s.map_values(|p: (FileIdentity, String)| (p.0@, p.1@))
}

/// The path-to-identity table as pairs.
pub open spec fn path_ids_view(s: Seq<(String, FileIdentity)>) -> Seq<(Seq<char>, IdView)> {
    s.map_values(|p: (String, FileIdentity)| (p.0@, p.1@))
}

fn find_identity<X>(list: &Vec<(FileIdentity, X)>, id: &FileIdentity) -> (r: Option<usize>)
    ensures
        r matches Some(i) ==> i < list@.len() && list@[i as int].0@ == id@,
        r is None ==> forall|i: int| 0 <= i < list@.len() ==> (#[trigger] list@[i]).0@ != id@,
{
    let mut i: usize = 0;
    while i < list.len()
        invariant
            i <= list@.len(),
            forall|j: int| 0 <= j < i ==> (#[trigger] list@[j]).0@ != id@,
        decreases list@.len() - i,
    {
        if list[i].0.same(id) {
            return Some(i);
        }
        i = i + 1;
    }
    None
}

fn find_path(list: &Vec<(String, FileIdentity)>, path: &String) -> (r: Option<usize>)
    ensures
        r matches Some(i) ==> i < list@.len() && list@[i as int].0@ == path@,
        r is None ==> forall|i: int| 0 <= i < list@.len() ==> (#[trigger] list@[i]).0@ != path@,
{
    let mut i: usize = 0;
    while i < list.len()
        invariant
            i <= list@.len(),
            forall|j: int| 0 <= j < i ==> (#[trigger] list@[j]).0@ != path@,
        decreases list@.len() - i,
    {
        if list[i].0 == *path {
            return Some(i);
        }
        i = i + 1;
    }
    None
}

impl FileRegistry {
    /// Keys of each table are distinct.
    pub closed spec fn wf(&self) -> bool {
        &&& unique_keys(contents_view(self.contents@))
        &&& unique_keys(id_paths_view(self.id_paths@))
        &&& unique_keys(path_ids_view(self.path_ids@))
    }

    /// The entry file.
    pub closed spec fn main_id(&self) -> IdView {
        self.main@
    }

    /// Contents supplied directly, by identity.
    pub closed spec fn contents(&self) -> Map<IdView, Seq<u8>> {
        assoc_map(contents_view(self.contents@))
    }

    /// Host path of each identity that has one.
    pub closed spec fn path_of(&self) -> Map<IdView, Seq<char>> {
        assoc_map(id_paths_view(self.id_paths@))
    }

    /// Identity of each known host path.
    pub closed spec fn id_of(&self) -> Map<Seq<char>, IdView> {
        assoc_map(path_ids_view(self.path_ids@))
    }

    /// An empty registry whose entry file is `main.typ`.
    pub fn new() -> (r: Self)
        ensures
            r.wf(),
            r.main_id() == (None::<Seq<char>>, rooted_vpath_of("main.typ"@)),
            r.contents() == Map::<IdView, Seq<u8>>::empty(),
            r.path_of() == Map::<IdView, Seq<char>>::empty(),
            r.id_of() == Map::<Seq<char>, IdView>::empty(),
    {
        let r = FileRegistry {
            main: FileIdentity::local("main.typ"),
            contents: Vec::new(),
            id_paths: Vec::new(),
            path_ids: Vec::new(),
        };
        assert(contents_view(r.contents@) =~= Seq::empty());
        assert(id_paths_view(r.id_paths@) =~= Seq::empty());
        assert(path_ids_view(r.path_ids@) =~= Seq::empty());
        r
    }

    /// The entry file of the compilation.
    pub fn entry_identity(&self) -> (r: FileIdentity)
        ensures
            r@ == self.main_id(),
    {
        self.main.duplicate()
    }

    /// Sets the content of `id` to `data`, replacing any earlier one.
    fn put_contents(&mut self, id: FileIdentity, data: Vec<u8>)
        requires
            old(self).wf(),
        ensures
            final(self).wf(),
            final(self).contents() == old(self).contents().insert(id@, data@),
            final(self).path_of() == old(self).path_of(),
            final(self).id_of() == old(self).id_of(),
            final(self).main_id() == old(self).main_id(),
    {
        let ghost s = contents_view(self.contents@);
        match find_identity(&self.contents, &id) {
            Some(i) => {
                proof {
                    lemma_assoc_update(s, i as int, data@);
                }
                self.contents.set(i, (id, data));
                assert(contents_view(self.contents@) =~= s.update(i as int, (s[i as int].0, data@)));
            },
            None => {
                let ghost k = id@;
                let ghost v = data@;
                proof {
                    assert forall|j: int| 0 <= j < s.len() implies s[j].0 != k by {
                        assert(s[j].0 == self.contents@[j].0@);
                    }
                    lemma_assoc_push(s, k, v);
                }
                self.contents.push((id, data));
                assert(contents_view(self.contents@) =~= s.push((k, v)));
            },
        }
    }

    /// Makes `name` (a project file) the entry file, with `source` as its
    /// content in place of what the disk holds; returns its identity.
    pub fn set_main_source(&mut self, name: &str, source: String) -> (r: FileIdentity)
        requires
            old(self).wf(),
        ensures
            final(self).wf(),
            r@ == (None::<Seq<char>>, rooted_vpath_of(name@)),
            final(self).main_id() == r@,
            final(self).contents() == old(self).contents().insert(r@, encode_utf8(source@)),
            final(self).path_of() == old(self).path_of(),
            final(self).id_of() == old(self).id_of(),
    {
        let id = FileIdentity::local(name);
        self.set_main_source_with_id(id.duplicate(), source);
        id
    }

    /// Makes `id` the entry file, with `source` as its content.
    pub fn set_main_source_with_id(&mut self, id: FileIdentity, source: String)
        requires
            old(self).wf(),
        ensures
            final(self).wf(),
            final(self).main_id() == id@,
            final(self).contents() == old(self).contents().insert(id@, encode_utf8(source@)),
            final(self).path_of() == old(self).path_of(),
            final(self).id_of() == old(self).id_of(),
    {
        self.main = id.duplicate();
        let data = slice_to_vec(source.as_str().as_bytes());
        self.put_contents(id, data);
    }

    /// Replaces the content of `id` with `source`.
    pub fn update_source(&mut self, id: FileIdentity, source: String)
        requires
            old(self).wf(),
        ensures
            final(self).wf(),
            final(self).main_id() == old(self).main_id(),
            final(self).contents() == old(self).contents().insert(id@, encode_utf8(source@)),
            final(self).path_of() == old(self).path_of(),
            final(self).id_of() == old(self).id_of(),
    {
        let data = slice_to_vec(source.as_str().as_bytes());
        self.put_contents(id, data);
    }

    /// Registers the project file `name`, read from host path `path`, with
    /// content `data`; returns its identity.
    pub fn add_file(&mut self, name: &str, path: String, data: Vec<u8>) -> (r: FileIdentity)
        requires
            old(self).wf(),
        ensures
            final(self).wf(),
            r@ == (None::<Seq<char>>, rooted_vpath_of(name@)),
            final(self).main_id() == old(self).main_id(),
            final(self).contents() == old(self).contents().insert(r@, data@),
            final(self).path_of() == old(self).path_of().insert(r@, path@),
            final(self).id_of() == old(self).id_of().insert(path@, r@),
    {
        let id = FileIdentity::local(name);
        self.put_contents(id.duplicate(), data);
        let ghost s = id_paths_view(self.id_paths@);
        let ghost pv = path@;
        match find_identity(&self.id_paths, &id) {
            Some(i) => {
                proof {
                    lemma_assoc_update(s, i as int, pv);
                }
                self.id_paths.set(i, (id.duplicate(), path.clone()));
                assert(id_paths_view(self.id_paths@) =~= s.update(i as int, (s[i as int].0, pv)));
            },
            None => {
                proof {
                    assert forall|j: int| 0 <= j < s.len() implies s[j].0 != id@ by {
                        assert(s[j].0 == self.id_paths@[j].0@);
                    }
                    lemma_assoc_push(s, id@, pv);
                }
                self.id_paths.push((id.duplicate(), path.clone()));
                assert(id_paths_view(self.id_paths@) =~= s.push((id@, pv)));
            },
        }
        let ghost t = path_ids_view(self.path_ids@);
        match find_path(&self.path_ids, &path) {
            Some(i) => {
                proof {
                    lemma_assoc_update(t, i as int, id@);
                }
                self.path_ids.set(i, (path, id.duplicate()));
                assert(path_ids_view(self.path_ids@) =~= t.update(i as int, (t[i as int].0, id@)));
            },
            None => {
                proof {
                    assert forall|j: int| 0 <= j < t.len() implies t[j].0 != pv by {
                        assert(t[j].0 == self.path_ids@[j].0@);
                    }
                    lemma_assoc_push(t, pv, id@);
                }
                self.path_ids.push((path, id.duplicate()));
                assert(path_ids_view(self.path_ids@) =~= t.push((pv, id@)));
            },
        }
        id
    }

    /// The identity registered for host path `path`.
    pub fn get_file_id(&self, path: &str) -> (r: Option<FileIdentity>)
        requires
            self.wf(),
        ensures
            r is Some <==> self.id_of().contains_key(path@),
            r matches Some(id) ==> id@ == self.id_of()[path@],
    {
        let ghost t = path_ids_view(self.path_ids@);
        proof {
            lemma_assoc_domain(t, path@);
        }
        let key = String::from_str(path);
        match find_path(&self.path_ids, &key) {
            Some(i) => {
                proof {
                    lemma_assoc_lookup(t, i as int);
                }
                Some(self.path_ids[i].1.duplicate())
            },
            None => {
                proof {
                    if exists|j: int| 0 <= j < t.len() && t[j].0 == path@ {
                        let j = choose|j: int| 0 <= j < t.len() && t[j].0 == path@;
                        assert(t[j].0 == self.path_ids@[j].0@);
                    }
                }
                None
            },
        }
    }

    /// The host path registered for `id`.
    pub fn get_file_path(&self, id: &FileIdentity) -> (r: Option<String>)
        requires
            self.wf(),
        ensures
            r is Some <==> self.path_of().contains_key(id@),
            r matches Some(p) ==> p@ == self.path_of()[id@],
    {
        let ghost s = id_paths_view(self.id_paths@);
        proof {
            lemma_assoc_domain(s, id@);
        }
        match find_identity(&self.id_paths, id) {
            Some(i) => {
                proof {
                    lemma_assoc_lookup(s, i as int);
                }
                Some(self.id_paths[i].1.clone())
            },
            None => {
                proof {
                    if exists|j: int| 0 <= j < s.len() && s[j].0 == id@ {
                        let j = choose|j: int| 0 <= j < s.len() && s[j].0 == id@;
                        assert(s[j].0 == self.id_paths@[j].0@);
                    }
                }
                None
            },
        }
    }

    /// The content supplied directly for `id`, if any.
    pub fn file(&self, id: &FileIdentity) -> (r: Option<&Vec<u8>>)
        requires
            self.wf(),
        ensures
            r is Some <==> self.contents().contains_key(id@),
            r matches Some(d) ==> d@ == self.contents()[id@],
    {
        let ghost s = contents_view(self.contents@);
        proof {
            lemma_assoc_domain(s, id@);
        }
        match find_identity(&self.contents, id) {
            Some(i) => {
                proof {
                    lemma_assoc_lookup(s, i as int);
                }
                Some(&self.contents[i].1)
            },
            None => {
                proof {
                    if exists|j: int| 0 <= j < s.len() && s[j].0 == id@ {
                        let j = choose|j: int| 0 <= j < s.len() && s[j].0 == id@;
                        assert(s[j].0 == self.contents@[j].0@);
                    }
                }
                None
            },
        }
    }

    /// Makes the file registered for host path `path` the entry file.
    pub fn set_active_file(&mut self, path: &str) -> (r: Result<(), TypstCompilerError>)
        requires
            old(self).wf(),
        ensures
            final(self).wf(),
            r is Ok <==> old(self).id_of().contains_key(path@),
            r is Ok ==> final(self).main_id() == old(self).id_of()[path@],
            r is Err ==> final(self).main_id() == old(self).main_id(),
            final(self).contents() == old(self).contents(),
            final(self).path_of() == old(self).path_of(),
            final(self).id_of() == old(self).id_of(),
    {
        match self.get_file_id(path) {
            Some(id) => {
                self.main = id;
                Ok(())
            },
            None => Err(TypstCompilerError::FileNotFound),
        }
    }

    /// Makes the file at host path `path` the entry file with `source` as
    /// its content; a path not registered yet stands for the project file
    /// `name`. Returns the entry file's identity.
    pub fn set_main_file_source(&mut self, path: &str, name: &str, source: String) -> (r: FileIdentity)
        requires
            old(self).wf(),
        ensures
            final(self).wf(),
            old(self).id_of().contains_key(path@) ==> r@ == old(self).id_of()[path@],
            !old(self).id_of().contains_key(path@) ==> r@ == (
                None::<Seq<char>>,
                rooted_vpath_of(name@),
            ),
            final(self).main_id() == r@,
            final(self).contents() == old(self).contents().insert(r@, encode_utf8(source@)),
            final(self).path_of() == old(self).path_of(),
            final(self).id_of() == old(self).id_of(),
    {
        let id = match self.get_file_id(path) {
            Some(id) => id,
            None => FileIdentity::local(name),
        };
        self.set_main_source_with_id(id.duplicate(), source);
        id
    }

    /// Records `content` for the file at host path `path`, registering it
    /// under `name` first when the path is not known yet.
    pub fn update_file(&mut self, path: String, name: &str, content: String)
        requires
            old(self).wf(),
        ensures
            final(self).wf(),
            final(self).main_id() == old(self).main_id(),
            final(self).id_of().contains_key(path@),
            final(self).contents() == old(self).contents().insert(
                final(self).id_of()[path@],
                encode_utf8(content@),
            ),
            old(self).id_of().contains_key(path@) ==> final(self).id_of() == old(self).id_of()
                && final(self).path_of() == old(self).path_of(),
            !old(self).id_of().contains_key(path@) ==> {
                let id = (None::<Seq<char>>, rooted_vpath_of(name@));
                &&& final(self).id_of() == old(self).id_of().insert(path@, id)
                &&& final(self).path_of() == old(self).path_of().insert(id, path@)
            },
    {
        let id = match self.get_file_id(path.as_str()) {
            Some(id) => id,
            None => {
                let data = slice_to_vec(content.as_str().as_bytes());
                self.add_file(name, path, data)
            },
        };
        self.update_source(id, content);
    }
}

} // verus!
