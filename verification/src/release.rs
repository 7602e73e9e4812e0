//! Where a release of the test sources lies and where it is staged: every
//! name follows from the release's tag alone.

use vstd::prelude::*;

verus! {

/// The archive's file name: `massa_unit_tests_<tag>.tar.gz`.
pub open spec fn archive_name(tag: Seq<char>) -> Seq<char> {
    "massa_unit_tests_"@ + tag + ".tar.gz"@
}

/// The address of the archive: `<base><tag>/<archive>`. The base ends in its
/// own separator.
pub open spec fn download_url(base: Seq<char>, tag: Seq<char>) -> Seq<char> {
    base + tag + "/"@ + archive_name(tag)
}

/// The directory the archive is unpacked into:
/// `extract_massa_unit_tests_src_<tag>`.
pub open spec fn staging_dir_name(tag: Seq<char>) -> Seq<char> {
    "extract_massa_unit_tests_src_"@ + tag
}

/// The pattern of the files an unpacked archive is expected to hold:
/// `<staging>/massa_unit_tests/*.wasm`.
pub open spec fn payload_pattern(tag: Seq<char>) -> Seq<char> {
    staging_dir_name(tag) + "/massa_unit_tests/*.wasm"@
}

/// A release: its tag and the site it is fetched from, with the archive's
/// name and address worked out once.
#[derive(Debug)]
pub struct ReleaseCoordinate {
    tag: String,
    base: String,
    archive: String,
    url: String,
}

impl ReleaseCoordinate {
    #[verifier::type_invariant]
    spec fn derived(&self) -> bool {
        &&& self.archive@ == archive_name(self.tag@)
        &&& self.url@ == download_url(self.base@, self.tag@)
    }

    /// The tag, as text.
    pub closed spec fn tag_text(&self) -> Seq<char> {
        self.tag@
    }

    /// The site the release is fetched from, as text.
    pub closed spec fn base_text(&self) -> Seq<char> {
        self.base@
    }

    /// The release `tag` at the site `base`.
    pub fn new(base: &str, tag: &str) -> (c: ReleaseCoordinate)
        ensures
            c.tag_text() == tag@,
            c.base_text() == base@,
    {
        let mut archive = "massa_unit_tests_".to_owned();
        archive.append(tag);
        archive.append(".tar.gz");
        let mut url = base.to_owned();
        url.append(tag);
        url.append("/");
        url.append(archive.as_str());
        assert(url@ =~= download_url(base@, tag@));
        ReleaseCoordinate { tag: tag.to_owned(), base: base.to_owned(), archive, url }
    }

    /// The tag.
    pub fn tag(&self) -> (t: &str)
        ensures
            t@ == self.tag_text(),
    {
        self.tag.as_str()
    }

    /// The archive's file name.
    pub fn archive(&self) -> (a: &str)
        ensures
            a@ == archive_name(self.tag_text()),
    {
        proof {
            use_type_invariant(self);
        }
        self.archive.as_str()
    }

    /// The address the archive is fetched from.
    pub fn url(&self) -> (u: &str)
        ensures
            u@ == download_url(self.base_text(), self.tag_text()),
    {
        proof {
            use_type_invariant(self);
        }
        self.url.as_str()
    }

    /// The directory the archive is unpacked into.
    pub fn staging_dir(&self) -> (d: String)
        ensures
            d@ == staging_dir_name(self.tag_text()),
    {
        let mut d = "extract_massa_unit_tests_src_".to_owned();
        d.append(self.tag.as_str());
        d
    }

    /// The pattern of the files the unpacked archive is expected to hold.
    /// Nothing is looked up: a pattern that matches no file is a pattern.
    pub fn pattern(&self) -> (p: String)
        ensures
            p@ == payload_pattern(self.tag_text()),
    {
        let mut p = self.staging_dir();
        p.append("/massa_unit_tests/*.wasm");
        p
    }
}

} // verus!
