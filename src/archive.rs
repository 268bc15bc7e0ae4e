//! Archive kinds and the choice of extractor by filename extension.

use crate::error::GraderError;
use crate::text::str_eq;
use vstd::prelude::*;

verus! {

/// The archive formats that the extractor can unpack.
#[derive(Debug, Clone, Copy, PartialEq, Eq, Structural)]
pub enum ArchiveType {
    Zip,
    Tar,
    Rar,
}

/// Unpacks a ZIP archive: random access, every entry at its relative path.
#[derive(Debug, Clone, Copy, PartialEq, Eq, Structural)]
pub struct ZipExtractor;

/// Unpacks a TAR archive as one buffered sequential stream.
#[derive(Debug, Clone, Copy, PartialEq, Eq, Structural)]
pub struct TarExtractor;

/// Unpacks a RAR archive header by header, writing file entries only.
#[derive(Debug, Clone, Copy, PartialEq, Eq, Structural)]
pub struct RarExtractor;

/// The extractor for one archive kind.
#[derive(Debug, Clone, Copy, PartialEq, Eq, Structural)]
pub enum Extractor {
    Zip(ZipExtractor),
    Tar(TarExtractor),
    Rar(RarExtractor),
}

impl Extractor {
    /// The archive kind that this extractor unpacks.
    pub open spec fn kind(self) -> ArchiveType {
        match self {
            Extractor::Zip(_) => ArchiveType::Zip,
            Extractor::Tar(_) => ArchiveType::Tar,
            Extractor::Rar(_) => ArchiveType::Rar,
        }
    }

    /// The archive kind that this extractor unpacks.
    pub fn archive_type(&self) -> (r: ArchiveType)
        ensures
            r == self.kind(),
    {
        match self {
            Extractor::Zip(_) => ArchiveType::Zip,
            Extractor::Tar(_) => ArchiveType::Tar,
            Extractor::Rar(_) => ArchiveType::Rar,
        }
    }
}

/// The archive kind named by an extension (exact, case-sensitive match).
pub open spec fn archive_type_for(ext: Seq<char>) -> Option<ArchiveType> {
    if ext == "zip"@ {
        Some(ArchiveType::Zip)
    } else if ext == "tar"@ {
        Some(ArchiveType::Tar)
    } else if ext == "rar"@ {
        Some(ArchiveType::Rar)
    } else {
        None
    }
}

/// Position of the last `c` in `s`, or -1 when `s` holds none.
pub open spec fn last_index(s: Seq<char>, c: char) -> int
    decreases s.len(),
{
    if s.len() == 0 {
        -1
    } else if s.last() == c {
        s.len() - 1
    } else {
        last_index(s.drop_last(), c)
    }
}

/// The extension of a file name: what follows its last `.`, where that dot is
/// not the name's first character; `..` has none.
pub open spec fn extension_of(name: Seq<char>) -> Option<Seq<char>> {
    let d = last_index(name, '.');
    if name == seq!['.', '.'] || d <= 0 {
        None
    } else {
        Some(name.skip(d + 1))
    }
}

/// The archive kind of a file name, by its extension.
pub open spec fn archive_type_of_name(name: Seq<char>) -> Option<ArchiveType> {
    match extension_of(name) {
        Some(ext) => archive_type_for(ext),
        None => None,
    }
}

/// The position that `last_index` gives is the one that its defining
/// properties single out.
pub proof fn lemma_last_index(s: Seq<char>, c: char, k: int)
    requires
        -1 <= k < s.len(),
        forall|j: int| k < j < s.len() ==> s[j] != c,
        k == -1 || s[k] == c,
    ensures
        last_index(s, c) == k,
    decreases s.len(),
{
    if s.len() > 0 && k < s.len() - 1 {
        let t = s.drop_last();
        assert forall|j: int| k < j < t.len() implies t[j] != c by {
            assert(t[j] == s[j]);
        }
        if k >= 0 {
            assert(t[k] == s[k]);
        }
        lemma_last_index(t, c, k);
    }
}

/// The extension of `name` (see `extension_of`).
pub fn file_extension(name: &str) -> (r: Option<String>)
    ensures
        r is Some <==> extension_of(name@) is Some,
        r is Some ==> r->Some_0@ == extension_of(name@)->Some_0,
        r is Some ==> r->Some_0@.len() + 2 <= name@.len(),
{
    let ghost s = name@;
    let n = name.unicode_len();
    let mut i = n;
    while i > 0
        invariant
            i <= n,
            n == s.len(),
            s == name@,
            forall|j: int| i <= j < n ==> s[j] != '.',
        ensures
            i <= n,
            forall|j: int| i <= j < n ==> s[j] != '.',
            i == 0 || s[i - 1] == '.',
        decreases i,
    {
        if name.get_char(i - 1) == '.' {
            break;
        }
        i = i - 1;
    }
    let ghost d = i - 1;
    proof {
        lemma_last_index(s, '.', d);
    }
    if i <= 1 || str_eq(name, "..") {
        proof {
            reveal_strlit("..");
            assert(".."@ == seq!['.', '.']);
        }
        None
    } else {
        proof {
            reveal_strlit("..");
            assert(".."@ == seq!['.', '.']);
        }
        Some(String::from_str(name.substring_char(i, n)))
    }
}

/// Factory for the extractor of each archive kind.
pub struct ArchiveExtractorFactory;

impl ArchiveExtractorFactory {
    /// The extractor that unpacks archives of the given kind.
    pub fn create_extractor(archive_type: ArchiveType) -> (r: Extractor)
        ensures
            r.kind() == archive_type,
    {
        match archive_type {
            ArchiveType::Zip => Extractor::Zip(ZipExtractor),
            ArchiveType::Tar => Extractor::Tar(TarExtractor),
            ArchiveType::Rar => Extractor::Rar(RarExtractor),
        }
    }

    /// The archive kind named by `extension`; `UnsupportedFormat` for any
    /// other extension.
    pub fn from_extension(extension: &str) -> (r: Result<ArchiveType, GraderError>)
        ensures
            archive_type_for(extension@) is Some ==> r == Ok::<ArchiveType, GraderError>(
                archive_type_for(extension@)->Some_0,
            ),
            archive_type_for(extension@) is None ==> r == Err::<ArchiveType, GraderError>(
                GraderError::UnsupportedFormat,
            ),
    {
        if str_eq(extension, "zip") {
            Ok(ArchiveType::Zip)
        } else if str_eq(extension, "tar") {
            Ok(ArchiveType::Tar)
        } else if str_eq(extension, "rar") {
            Ok(ArchiveType::Rar)
        } else {
            Err(GraderError::UnsupportedFormat)
        }
    }
}

/// The archive kind of the file `name`, by its extension; `UnsupportedFormat`
/// when the extension is missing or names no archive kind.
pub fn archive_type_of_file(name: &str) -> (r: Result<ArchiveType, GraderError>)
    ensures
        archive_type_of_name(name@) is Some ==> r == Ok::<ArchiveType, GraderError>(
            archive_type_of_name(name@)->Some_0,
        ),
        archive_type_of_name(name@) is None ==> r == Err::<ArchiveType, GraderError>(
            GraderError::UnsupportedFormat,
        ),
{
    match file_extension(name) {
        Some(ext) => ArchiveExtractorFactory::from_extension(ext.as_str()),
        None => Err(GraderError::UnsupportedFormat),
    }
}

} // verus!
