//! Records of installed packages and the details fetched for them.
use vstd::prelude::*;
use vstd::string::*;
use crate::version::{version_text, Version};

verus! {

/// Tags of a package, in the order the detail report gives them.
#[derive(Clone, Debug, Default, PartialEq, Eq)]
pub struct Tags(pub Vec<String>);

impl View for Tags {
    type V = Seq<Seq<char>>;

    open spec fn view(&self) -> Seq<Seq<char>> {
        self.0.deep_view()
    }
}

/// What the detail report says of a package. A field that the report does
/// not give is `None`, which is distinct from an empty text.
#[derive(Clone, Debug, Default, PartialEq, Eq)]
pub struct KrateInfo {
    pub description: Option<String>,
    pub tags: Option<Tags>,
    pub latest_version: Option<Version>,
    pub license: Option<String>,
    pub rust_version: Option<Version>,
    pub documentation: Option<String>,
    pub homepage: Option<String>,
    pub repository: Option<String>,
    pub crates_io: Option<String>,
    /// True once a detail report has been parsed into this value.
    pub synced: bool,
}

/// Mathematical model of [`KrateInfo`].
pub struct InfoModel {
    pub description: Option<Seq<char>>,
    pub tags: Option<Seq<Seq<char>>>,
    pub latest_version: Option<Version>,
    pub license: Option<Seq<char>>,
    pub rust_version: Option<Version>,
    pub documentation: Option<Seq<char>>,
    pub homepage: Option<Seq<char>>,
    pub repository: Option<Seq<char>>,
    pub crates_io: Option<Seq<char>>,
    pub synced: bool,
}

pub open spec fn tags_view(t: Option<Tags>) -> Option<Seq<Seq<char>>> {
    match t {
        Some(t) => Some(t@),
        None => None,
    }
}

impl View for KrateInfo {
    type V = InfoModel;

    open spec fn view(&self) -> InfoModel {
        InfoModel {
            description: self.description.deep_view(),
            tags: tags_view(self.tags),
            latest_version: self.latest_version,
            license: self.license.deep_view(),
            rust_version: self.rust_version,
            documentation: self.documentation.deep_view(),
            homepage: self.homepage.deep_view(),
            repository: self.repository.deep_view(),
            crates_io: self.crates_io.deep_view(),
            synced: self.synced,
        }
    }
}

/// The model of a package whose detail has not been fetched.
pub open spec fn unsynced_info() -> InfoModel {
    InfoModel {
        description: None,
        tags: None,
        latest_version: None,
        license: None,
        rust_version: None,
        documentation: None,
        homepage: None,
        repository: None,
        crates_io: None,
        synced: false,
    }
}

/// A detail result together with the name of the package it describes.
#[derive(Clone, Debug, Default, PartialEq, Eq)]
pub struct KrateMetadata {
    pub name: String,
    pub info: KrateInfo,
}

pub struct MetadataModel {
    pub name: Seq<char>,
    pub info: InfoModel,
}

impl View for KrateMetadata {
    type V = MetadataModel;

    open spec fn view(&self) -> MetadataModel {
        MetadataModel { name: self.name@, info: self.info@ }
    }
}

/// One installed package.
#[derive(Clone, Debug, Default, PartialEq, Eq)]
pub struct Krate {
    pub name: String,
    pub version: Version,
    pub binaries: Vec<String>,
    pub metadata: KrateMetadata,
}

pub struct KrateModel {
    pub name: Seq<char>,
    pub version: Version,
    pub binaries: Seq<Seq<char>>,
    pub metadata: MetadataModel,
}

impl View for Krate {
    type V = KrateModel;

    open spec fn view(&self) -> KrateModel {
        KrateModel {
            name: self.name@,
            version: self.version,
            binaries: self.binaries.deep_view(),
            metadata: self.metadata@,
        }
    }
}

/// The installed packages, in listing order.
#[derive(Clone, Debug, Default, PartialEq, Eq)]
pub struct Krates(pub Vec<Krate>);

impl View for Krates {
    type V = Seq<KrateModel>;

    open spec fn view(&self) -> Seq<KrateModel> {
        self.0@.map_values(|k: Krate| k@)
    }
}

/// The metadata of a package whose detail has not been fetched yet.
pub fn unsynced_metadata() -> (r: KrateMetadata)
    ensures
        r@ == (MetadataModel { name: Seq::empty(), info: unsynced_info() }),
{
    KrateMetadata {
        name: String::new(),
        info: KrateInfo {
            description: None,
            tags: None,
            latest_version: None,
            license: None,
            rust_version: None,
            documentation: None,
            homepage: None,
            repository: None,
            crates_io: None,
            synced: false,
        },
    }
}

} // verus!

verus! {

/// `#a #b #c`: each tag after a `#`, separated by single spaces.
pub open spec fn tags_text(ts: Seq<Seq<char>>) -> Seq<char>
    decreases ts.len(),
{
    if ts.len() == 0 {
        Seq::empty()
    } else if ts.len() == 1 {
        "#"@ + ts[0]
    } else {
        tags_text(ts.drop_last()) + " #"@ + ts.last()
    }
}

/// A package that has a fetched detail whose latest version differs from
/// the installed one.
pub open spec fn is_outdated(k: KrateModel) -> bool {
    &&& k.metadata.info.synced
    &&& k.metadata.info.latest_version matches Some(v)
    &&& v != k.version
}

/// The outdated packages, in catalog order.
pub open spec fn outdated(ks: Seq<KrateModel>) -> Seq<KrateModel> {
    ks.filter(|k: KrateModel| is_outdated(k))
}

fn copy_text(s: &Option<String>) -> (r: Option<String>)
    ensures
        r.deep_view() == s.deep_view(),
{
    match s {
        Some(t) => Some(t.clone()),
        None => None,
    }
}

pub(crate) fn copy_strings(v: &Vec<String>) -> (r: Vec<String>)
    ensures
        r.deep_view() == v.deep_view(),
{
    let mut r: Vec<String> = Vec::new();
    for i in 0..v.len()
        invariant
            r.deep_view() == v.deep_view().subrange(0, i as int),
    {
        let ghost before = r.deep_view();
        r.push(v[i].clone());
        proof {
            assert(r.deep_view() =~= before.push(v[i as int]@));
            assert(v.deep_view().subrange(0, i + 1) =~= v.deep_view().subrange(0, i as int).push(
                v[i as int]@,
            ));
        }
    }
    proof {
        assert(v.deep_view().subrange(0, v.len() as int) =~= v.deep_view());
    }
    r
}

impl Tags {
    /// `#a #b #c`.
    pub fn text(&self) -> (r: String)
        ensures
            r@ == tags_text(self@),
    {
        let mut out = String::new();
        let n = self.0.len();
        for i in 0..n
            invariant
                n == self@.len(),
                out@ == tags_text(self@.subrange(0, i as int)),
        {
            proof {
                let s = self@.subrange(0, i + 1);
                assert(s.drop_last() =~= self@.subrange(0, i as int));
                assert(s[0] == self@[0]);
            }
            if i > 0 {
                out.append(" #");
            } else {
                out.append("#");
            }
            out.append(self.0[i].as_str());
            proof {
                let s = self@.subrange(0, i + 1);
                if i > 0 {
                    assert(out@ =~= tags_text(s.drop_last()) + " #"@ + s.last());
                } else {
                    assert(Seq::<char>::empty() + "#"@ =~= "#"@);
                }
            }
        }
        proof {
            assert(self@.subrange(0, n as int) =~= self@);
        }
        out
    }
}

impl KrateInfo {
    /// A copy with the same model.
    pub fn copied(&self) -> (r: KrateInfo)
        ensures
            r@ == self@,
    {
        KrateInfo {
            description: copy_text(&self.description),
            tags: match &self.tags {
                Some(t) => Some(Tags(copy_strings(&t.0))),
                None => None,
            },
            latest_version: self.latest_version,
            license: copy_text(&self.license),
            rust_version: self.rust_version,
            documentation: copy_text(&self.documentation),
            homepage: copy_text(&self.homepage),
            repository: copy_text(&self.repository),
            crates_io: copy_text(&self.crates_io),
            synced: self.synced,
        }
    }
}

impl Krate {
    /// A copy with the same model.
    pub fn copied(&self) -> (r: Krate)
        ensures
            r@ == self@,
    {
        Krate {
            name: self.name.clone(),
            version: self.version,
            binaries: copy_strings(&self.binaries),
            metadata: KrateMetadata {
                name: self.metadata.name.clone(),
                info: self.metadata.info.copied(),
            },
        }
    }

    /// The description, or `not available` when there is none.
    pub fn description(&self) -> (r: String)
        ensures
            r@ == (match self.metadata.info.description {
                Some(d) => d@,
                None => "not available"@,
            }),
    {
        match &self.metadata.info.description {
            Some(d) => d.clone(),
            None => String::from_str("not available"),
        }
    }

    /// The tags as `#a #b`, or empty text when there are none.
    pub fn tags_str(&self) -> (r: String)
        ensures
            r@ == (match self.metadata.info.tags {
                Some(t) => tags_text(t@),
                None => Seq::empty(),
            }),
    {
        match &self.metadata.info.tags {
            Some(t) => t.text(),
            None => String::new(),
        }
    }

    /// The latest published version; the installed one when it is unknown.
    pub fn latest_version(&self) -> (r: Version)
        ensures
            r == (match self.metadata.info.latest_version {
                Some(v) => v,
                None => self.version,
            }),
    {
        match self.metadata.info.latest_version {
            Some(v) => v,
            None => self.version,
        }
    }

    /// The license, or `not found` when there is none.
    pub fn license(&self) -> (r: String)
        ensures
            r@ == (match self.metadata.info.license {
                Some(d) => d@,
                None => "not found"@,
            }),
    {
        match &self.metadata.info.license {
            Some(d) => d.clone(),
            None => String::from_str("not found"),
        }
    }

    /// The toolchain version as text, or `unknown`.
    pub fn rust_version_str(&self) -> (r: String)
        ensures
            r@ == (match self.metadata.info.rust_version {
                Some(v) => version_text(v),
                None => "unknown"@,
            }),
    {
        match &self.metadata.info.rust_version {
            Some(v) => v.text(),
            None => String::from_str("unknown"),
        }
    }

    /// The documentation address as given (possibly empty), or `not available`
    /// when the report has no such field.
    pub fn documentation(&self) -> (r: String)
        ensures
            r@ == (match self.metadata.info.documentation {
                Some(d) => d@,
                None => "not available"@,
            }),
    {
        match &self.metadata.info.documentation {
            Some(d) => d.clone(),
            None => String::from_str("not available"),
        }
    }

    /// The homepage address as given (possibly empty), or `not available` when
    /// the report has no such field.
    pub fn homepage(&self) -> (r: String)
        ensures
            r@ == (match self.metadata.info.homepage {
                Some(d) => d@,
                None => "not available"@,
            }),
    {
        match &self.metadata.info.homepage {
            Some(d) => d.clone(),
            None => String::from_str("not available"),
        }
    }

    /// The repository address as given (possibly empty), or `not available`
    /// when the report has no such field.
    pub fn repository(&self) -> (r: String)
        ensures
            r@ == (match self.metadata.info.repository {
                Some(d) => d@,
                None => "not available"@,
            }),
    {
        match &self.metadata.info.repository {
            Some(d) => d.clone(),
            None => String::from_str("not available"),
        }
    }

    /// False exactly when the package is outdated: its detail is fetched and
    /// names another latest version.
    pub fn is_latest(&self) -> (r: bool)
        ensures
            r == !is_outdated(self@),
    {
        if !self.metadata.info.synced {
            return true;
        }
        match self.metadata.info.latest_version {
            Some(v) => v == self.version,
            None => true,
        }
    }

    /// Whether the detail has been fetched.
    pub fn is_metadata_synced(&self) -> (r: bool)
        ensures
            r == self.metadata.info.synced,
    {
        self.metadata.info.synced
    }
}

} // verus!
