//! The files held in an archive, read into memory by name.
//!
//! Each archive format is read through a few calls into its crate, one
//! entry at a time; the contents of an archive are named, as a function of
//! its bytes, by the specification functions below.

use vstd::prelude::*;
use std::io::Read;
use crate::text::{str_equal, views};

verus! {

/// One file of an archive.
pub struct ArchiveFile {
    pub name: String,
    pub content: Vec<u8>,
}

/// The files of an archive by name; each name occurs once.
pub struct ArchiveFiles {
    files: Vec<ArchiveFile>,
}

/// Why an archive could not be read: the message of the archive crate.
#[derive(Debug)]
pub struct ArchiveError {
    pub message: String,
}

/// The map from name to content that a list of files stands for, a later
/// file replacing an earlier one of the same name.
pub open spec fn files_map(s: Seq<ArchiveFile>) -> Map<Seq<char>, Seq<u8>>
    decreases s.len(),
{
    if s.len() == 0 {
        Map::empty()
    } else {
        files_map(s.drop_last()).insert(s.last().name@, s.last().content@)
    }
}

pub open spec fn names_distinct(s: Seq<ArchiveFile>) -> bool {
    forall|i: int, j: int| 0 <= i < j < s.len() ==> s[i].name@ != s[j].name@
}

proof fn lemma_files_map_dom(s: Seq<ArchiveFile>, k: Seq<char>)
    ensures
        files_map(s).dom().contains(k) <==> exists|i: int| 0 <= i < s.len() && s[i].name@ == k,
    decreases s.len(),
{
    if s.len() > 0 {
        lemma_files_map_dom(s.drop_last(), k);
        if files_map(s).dom().contains(k) && k != s.last().name@ {
            let i = choose|i: int| 0 <= i < s.drop_last().len() && s.drop_last()[i].name@ == k;
            assert(s[i].name@ == k);
        }
        if exists|i: int| 0 <= i < s.len() && s[i].name@ == k {
            let i = choose|i: int| 0 <= i < s.len() && s[i].name@ == k;
            if i < s.len() - 1 {
                assert(s.drop_last()[i].name@ == k);
            }
        }
    }
}

proof fn lemma_files_map_update(s: Seq<ArchiveFile>, j: int, f: ArchiveFile)
    requires
        names_distinct(s),
        0 <= j < s.len(),
        s[j].name@ == f.name@,
    ensures
        files_map(s.update(j, f)) == files_map(s).insert(f.name@, f.content@),
    decreases s.len(),
{
    let t = s.update(j, f);
    if j == s.len() - 1 {
        assert(t.drop_last() =~= s.drop_last());
        assert(files_map(t) =~= files_map(s).insert(f.name@, f.content@));
    } else {
        assert(t.drop_last() =~= s.drop_last().update(j, f));
        lemma_files_map_update(s.drop_last(), j, f);
        assert(s.last().name@ != f.name@);
        assert(files_map(t) =~= files_map(s).insert(f.name@, f.content@));
    }
}

impl ArchiveFiles {
    /// The files by name.
    pub closed spec fn view(&self) -> Map<Seq<char>, Seq<u8>> {
        files_map(self.files@)
    }

    /// Each name occurs once.
    #[verifier::type_invariant]
    closed spec fn wf(&self) -> bool {
        names_distinct(self.files@)
    }

    /// The files in the order they were first added.
    pub closed spec fn file_list(&self) -> Seq<ArchiveFile> {
        self.files@
    }

    /// The files by name are those of the list of files.
    pub proof fn lemma_view_is_list(&self)
        ensures
            self.view() == files_map(self.file_list()),
            self.spec_len() == self.file_list().len(),
    {
    }

    /// The number of files.
    pub closed spec fn spec_len(&self) -> nat {
        self.files@.len()
    }

    /// No files.
    pub fn new() -> (r: ArchiveFiles)
        ensures
            r.view() == Map::<Seq<char>, Seq<u8>>::empty(),
            r.spec_len() == 0,
    {
        ArchiveFiles { files: Vec::new() }
    }

    /// Adds a file, replacing any file of the same name.
    pub fn insert(&mut self, name: String, content: Vec<u8>)
        ensures
            final(self).view() == old(self).view().insert(name@, content@),
            final(self).spec_len() == old(self).view().insert(name@, content@).dom().len(),
    {
        proof {
            use_type_invariant(&*self);
        }
        let mut files: Vec<ArchiveFile> = Vec::new();
        std::mem::swap(&mut files, &mut self.files);
        let ghost s = files@;
        proof {
            lemma_files_map_finite(s);
            lemma_files_map_len(s);
        }
        let n = files.len();
        let mut i: usize = 0;
        while i < n
            invariant
                n == files@.len(),
                i <= n,
                names_distinct(s),
                files@ == s,
                s == old(self).files@,
                forall|j: int| 0 <= j < i ==> files@[j].name@ != name@,
            decreases n - i,
        {
            if str_equal(files[i].name.as_str(), name.as_str()) {
                let f = ArchiveFile { name, content };
                proof {
                    lemma_files_map_update(s, i as int, f);
                    lemma_files_map_dom(s, f.name@);
                    assert(files_map(s).dom().contains(f.name@));
                }
                files.set(i, f);
                proof {
                    assert(files@ == s.update(i as int, f));
                    lemma_files_map_len(s);
                    assert(files_map(s).insert(f.name@, f.content@).dom() =~= files_map(s).dom());
                    assert forall|a: int, b: int| 0 <= a < b < files@.len() implies files@[a].name@
                        != files@[b].name@ by {
                        assert(s[a].name@ != s[b].name@);
                    }
                }
                self.files = files;
                return;
            }
            i = i + 1;
        }
        proof {
            lemma_files_map_dom(s, name@);
        }
        files.push(ArchiveFile { name, content });
        proof {
            assert(files@.drop_last() =~= s);
            assert(!files_map(s).dom().contains(name@));
            assert(files_map(files@) == files_map(s).insert(name@, content@));
            assert(files_map(files@).dom() =~= files_map(s).dom().insert(name@));
            lemma_files_map_finite(s);
            assert(files_map(s).dom().insert(name@).len() == files_map(s).dom().len() + 1);
            assert forall|a: int, b: int| 0 <= a < b < files@.len() implies files@[a].name@
                != files@[b].name@ by {
                if b < s.len() {
                    assert(s[a].name@ != s[b].name@);
                } else {
                    assert(files@[a] == s[a]);
                }
            }
        }
        self.files = files;
    }

    /// The number of files.
    pub fn len(&self) -> (r: usize)
        ensures
            r == self.spec_len(),
            r == self.view().dom().len(),
    {
        proof {
            use_type_invariant(self);
            lemma_files_map_len(self.files@);
        }
        self.files.len()
    }

    /// The file at a position of the list of files.
    pub fn get_index(&self, i: usize) -> (r: &ArchiveFile)
        requires
            i < self.spec_len(),
        ensures
            *r == self.file_list()[i as int],
            self.view().dom().contains(r.name@),
            self.view()[r.name@] == r.content@,
    {
        proof {
            use_type_invariant(self);
            lemma_files_map_at(self.files@, i as int);
        }
        &self.files[i]
    }
}

proof fn lemma_files_map_finite(s: Seq<ArchiveFile>)
    ensures
        files_map(s).dom().finite(),
    decreases s.len(),
{
    if s.len() > 0 {
        lemma_files_map_finite(s.drop_last());
    }
}

proof fn lemma_files_map_len(s: Seq<ArchiveFile>)
    requires
        names_distinct(s),
    ensures
        files_map(s).dom().len() == s.len(),
    decreases s.len(),
{
    if s.len() > 0 {
        lemma_files_map_len(s.drop_last());
        lemma_files_map_finite(s.drop_last());
        lemma_files_map_dom(s.drop_last(), s.last().name@);
        if files_map(s.drop_last()).dom().contains(s.last().name@) {
            let i = choose|i: int| 0 <= i < s.drop_last().len() && s.drop_last()[i].name@ == s.last().name@;
            assert(s[i].name@ == s[s.len() - 1].name@);
        }
    }
}

proof fn lemma_files_map_at(s: Seq<ArchiveFile>, i: int)
    requires
        names_distinct(s),
        0 <= i < s.len(),
    ensures
        files_map(s).dom().contains(s[i].name@),
        files_map(s)[s[i].name@] == s[i].content@,
    decreases s.len(),
{
    if i < s.len() - 1 {
        lemma_files_map_at(s.drop_last(), i);
        assert(s.drop_last()[i] == s[i]);
    }
}


/// One entry of an archive as its crate reads it: the entry's name and its
/// unpacked content, or `None` when the entry cannot be read.
pub type EntryRead = Option<(Seq<char>, Seq<u8>)>;

/// The files that a list of entries gives, a later entry replacing an
/// earlier one of the same name; `None` when some entry cannot be read.
pub open spec fn listing_map(l: Seq<EntryRead>) -> Option<Map<Seq<char>, Seq<u8>>>
    decreases l.len(),
{
    if l.len() == 0 {
        Some(Map::empty())
    } else {
        match (listing_map(l.drop_last()), l.last()) {
            (Some(m), Some(e)) => Some(m.insert(e.0, e.1)),
            _ => None,
        }
    }
}

proof fn lemma_listing_step(l: Seq<EntryRead>, i: int)
    requires
        0 <= i < l.len(),
    ensures
        listing_map(l.take(i + 1)) == match (listing_map(l.take(i)), l[i]) {
            (Some(m), Some(e)) => Some(m.insert(e.0, e.1)),
            _ => None,
        },
{
    assert(l.take(i + 1).drop_last() =~= l.take(i));
}

proof fn lemma_listing_prefix_fails(l: Seq<EntryRead>, i: int)
    requires
        0 <= i <= l.len(),
        listing_map(l.take(i)) is None,
    ensures
        listing_map(l) is None,
    decreases l.len() - i,
{
    if i == l.len() {
        assert(l.take(i) =~= l);
    } else {
        lemma_listing_step(l, i);
        lemma_listing_prefix_fails(l, i + 1);
    }
}

/// The entries of a zip archive as `zip::ZipArchive` reads them from its
/// bytes: `None` when the archive cannot be opened, else one item per entry
/// of its directory, in order.
pub uninterp spec fn zip_listing(data: Seq<u8>) -> Option<Seq<EntryRead>>;

/// Calls `zip::ZipArchive::new` and `ZipArchive::len`: the number of
/// entries of the archive, or the crate's message when it cannot be opened.
#[verifier::external_body]
fn zip_entry_count(data: &[u8]) -> (r: Result<usize, String>)
    ensures
        match zip_listing(data@) {
            Some(l) => r matches Ok(n) && n == l.len(),
            None => r is Err,
        },
{
    match zip::ZipArchive::new(std::io::Cursor::new(data)) {
        Ok(archive) => Ok(archive.len()),
        Err(e) => Err(e.to_string()),
    }
}

/// Calls `ZipArchive::by_index` on the opened archive and reads the entry
/// out: its name and unpacked content, or the crate's message.
#[verifier::external_body]
fn zip_entry(data: &[u8], i: usize) -> (r: Result<(String, Vec<u8>), String>)
    requires
        zip_listing(data@) matches Some(l) && i < l.len(),
    ensures
        match zip_listing(data@)->0[i as int] {
            Some(e) => r matches Ok((n, c)) && n@ == e.0 && c@ == e.1,
            None => r is Err,
        },
{
    let mut archive = zip::ZipArchive::new(std::io::Cursor::new(data)).map_err(|e| e.to_string())?;
    let mut file = archive.by_index(i).map_err(|e| e.to_string())?;
    let mut content = Vec::new();
    file.read_to_end(&mut content).map_err(|e| e.to_string())?;
    Ok((file.name().to_string(), content))
}

/// The files of a zip archive by name; an error when the archive cannot be
/// opened or one of its entries cannot be read.
pub fn extract_zip(data: &[u8]) -> (r: Result<ArchiveFiles, ArchiveError>)
    ensures
        match zip_listing(data@) {
            None => r is Err,
            Some(l) => match listing_map(l) {
                None => r is Err,
                Some(m) => r matches Ok(f) && f.view() == m,
            },
        },
{
    let n = match zip_entry_count(data) {
        Ok(n) => n,
        Err(message) => {
            return Err(ArchiveError { message });
        },
    };
    let ghost l = zip_listing(data@)->0;
    let mut files = ArchiveFiles::new();
    let mut i: usize = 0;
    assert(l.take(0) =~= Seq::<EntryRead>::empty());
    while i < n
        invariant
            zip_listing(data@) == Some(l),
            n == l.len(),
            i <= n,
            listing_map(l.take(i as int)) == Some(files.view()),
        decreases n - i,
    {
        proof {
            lemma_listing_step(l, i as int);
        }
        match zip_entry(data, i) {
            Ok((name, content)) => {
                files.insert(name, content);
            },
            Err(message) => {
                proof {
                    lemma_listing_prefix_fails(l, i + 1);
                }
                return Err(ArchiveError { message });
            },
        }
        i = i + 1;
    }
    assert(l.take(n as int) =~= l);
    Ok(files)
}

/// The entries of a gzip-compressed tar archive as `tar::Archive::entries`
/// yields them from its bytes, in order.
pub uninterp spec fn tar_gz_listing(data: Seq<u8>) -> Seq<EntryRead>;

/// Calls `tar::Archive::entries` on the unpacked bytes and takes the entry
/// at position `i` out of it, when there is one: its path and content, or
/// the crate's message.
#[verifier::external_body]
fn tar_gz_entry(data: &[u8], i: usize) -> (r: Option<Result<(String, Vec<u8>), String>>)
    ensures
        i < tar_gz_listing(data@).len() ==> match tar_gz_listing(data@)[i as int] {
            Some(e) => r matches Some(Ok((n, c))) && n@ == e.0 && c@ == e.1,
            None => r matches Some(Err(_)),
        },
        i >= tar_gz_listing(data@).len() ==> r is None,
{
    let mut archive = tar::Archive::new(flate2::read::GzDecoder::new(data));
    let mut entries = match archive.entries() { Ok(es) => es, Err(e) => return Some(Err(e.to_string())) };
    let mut entry = match entries.nth(i)? { Ok(en) => en, Err(e) => return Some(Err(e.to_string())) };
    let name = match entry.path() { Ok(p) => p.to_string_lossy().into_owned(), Err(e) => return Some(Err(e.to_string())) };
    let mut content = Vec::new();
    match entry.read_to_end(&mut content) {
        Ok(_) => Some(Ok((name, content))),
        Err(e) => Some(Err(e.to_string())),
    }
}

/// The files of a gzip-compressed tar archive by name; an error when one of
/// its entries cannot be read. Archives of `usize::MAX` entries or more are
/// refused.
pub fn extract_tar_gz(data: &[u8]) -> (r: Result<ArchiveFiles, ArchiveError>)
    ensures
        tar_gz_listing(data@).len() < usize::MAX ==> match listing_map(tar_gz_listing(data@)) {
            None => r is Err,
            Some(m) => r matches Ok(f) && f.view() == m,
        },
{
    let ghost l = tar_gz_listing(data@);
    let mut files = ArchiveFiles::new();
    let mut i: usize = 0;
    assert(l.take(0) =~= Seq::<EntryRead>::empty());
    loop
        invariant
            l == tar_gz_listing(data@),
            i <= l.len(),
            listing_map(l.take(i as int)) == Some(files.view()),
        decreases l.len() - i,
    {
        match tar_gz_entry(data, i) {
            None => {
                assert(l.take(i as int) =~= l);
                return Ok(files);
            },
            Some(Err(message)) => {
                proof {
                    lemma_listing_step(l, i as int);
                    lemma_listing_prefix_fails(l, i + 1);
                }
                return Err(ArchiveError { message });
            },
            Some(Ok((name, content))) => {
                proof {
                    lemma_listing_step(l, i as int);
                }
                files.insert(name, content);
                if i == usize::MAX {
                    return Err(ArchiveError { message: String::from_str("too many entries") });
                }
                i = i + 1;
            },
        }
    }
}

/// The entry names of a 7z archive as `sevenz_rust2::ArchiveReader` lists
/// them from its bytes, in order; `None` when it cannot be opened.
pub uninterp spec fn sevenz_listing(data: Seq<u8>) -> Option<Seq<Seq<char>>>;

/// The content that `ArchiveReader::read_file` gives for a name of a 7z
/// archive; `None` when it gives an error.
pub uninterp spec fn sevenz_file(data: Seq<u8>, name: Seq<char>) -> Option<Seq<u8>>;

/// Calls `sevenz_rust2::ArchiveReader::new` (no password) and lists the
/// names of the archive's entries, or gives the crate's message.
#[verifier::external_body]
fn sevenz_names(data: &[u8]) -> (r: Result<Vec<String>, String>)
    ensures
        match sevenz_listing(data@) {
            Some(l) => r matches Ok(v) && views(v@) == l,
            None => r is Err,
        },
{
    let password = sevenz_rust2::Password::empty();
    match sevenz_rust2::ArchiveReader::new(std::io::Cursor::new(data), password) {
        Ok(reader) => Ok(reader.archive().files.iter().map(|f| f.name.clone()).collect()),
        Err(e) => Err(e.to_string()),
    }
}

/// Calls `ArchiveReader::read_file` on the opened archive: the content of
/// the named entry, or the crate's message.
#[verifier::external_body]
fn sevenz_read(data: &[u8], name: &str) -> (r: Result<Vec<u8>, String>)
    ensures
        match sevenz_file(data@, name@) {
            Some(c) => r matches Ok(v) && v@ == c,
            None => r is Err,
        },
{
    let password = sevenz_rust2::Password::empty();
    let cursor = std::io::Cursor::new(data);
    let mut reader = sevenz_rust2::ArchiveReader::new(cursor, password).map_err(|e| e.to_string())?;
    reader.read_file(name).map_err(|e| e.to_string())
}

/// The files that the named entries of a 7z archive give, a later entry
/// replacing an earlier one of the same name; `None` when one cannot be read.
pub open spec fn sevenz_map(data: Seq<u8>, names: Seq<Seq<char>>) -> Option<
    Map<Seq<char>, Seq<u8>>,
>
    decreases names.len(),
{
    if names.len() == 0 {
        Some(Map::empty())
    } else {
        match (sevenz_map(data, names.drop_last()), sevenz_file(data, names.last())) {
            (Some(m), Some(c)) => Some(m.insert(names.last(), c)),
            _ => None,
        }
    }
}

proof fn lemma_sevenz_prefix_fails(data: Seq<u8>, l: Seq<Seq<char>>, i: int)
    requires
        0 <= i <= l.len(),
        sevenz_map(data, l.take(i)) is None,
    ensures
        sevenz_map(data, l) is None,
    decreases l.len() - i,
{
    if i == l.len() {
        assert(l.take(i) =~= l);
    } else {
        assert(l.take(i + 1).drop_last() =~= l.take(i));
        lemma_sevenz_prefix_fails(data, l, i + 1);
    }
}

/// The files of a 7z archive by name; an error when the archive cannot be
/// opened or one of its entries cannot be read.
pub fn extract_7z(data: &[u8]) -> (r: Result<ArchiveFiles, ArchiveError>)
    ensures
        match sevenz_listing(data@) {
            None => r is Err,
            Some(l) => match sevenz_map(data@, l) {
                None => r is Err,
                Some(m) => r matches Ok(f) && f.view() == m,
            },
        },
{
    let names = match sevenz_names(data) {
        Ok(v) => v,
        Err(message) => {
            return Err(ArchiveError { message });
        },
    };
    let ghost l = views(names@);
    let mut files = ArchiveFiles::new();
    let mut i: usize = 0;
    assert(l.take(0) =~= Seq::<Seq<char>>::empty());
    while i < names.len()
        invariant
            sevenz_listing(data@) == Some(l),
            l == views(names@),
            i <= names.len(),
            sevenz_map(data@, l.take(i as int)) == Some(files.view()),
        decreases names.len() - i,
    {
        proof {
            assert(l.take(i + 1).drop_last() =~= l.take(i as int));
            assert(l.take(i + 1).last() == names@[i as int]@);
        }
        match sevenz_read(data, names[i].as_str()) {
            Ok(content) => {
                let name = names[i].clone();
                files.insert(name, content);
            },
            Err(message) => {
                proof {
                    lemma_sevenz_prefix_fails(data@, l, i + 1);
                }
                return Err(ArchiveError { message });
            },
        }
        i = i + 1;
    }
    assert(l.take(names.len() as int) =~= l);
    Ok(files)
}

} // verus!
