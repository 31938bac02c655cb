//! The records that the backends produce: search hits, package details and
//! installed packages, with their mathematical views.
use vstd::prelude::*;
use vstd::string::*;


verus! {

/// One package found by a search.
pub struct SearchResult {
    pub name: String,
    pub description: String,
    pub version: String,
    pub backend: String,
}

/// The view of a `SearchResult`.
pub struct SearchResultView {
    pub name: Seq<char>,
    pub description: Seq<char>,
    pub version: Seq<char>,
    pub backend: Seq<char>,
}

impl View for SearchResult {
    type V = SearchResultView;

    open spec fn view(&self) -> SearchResultView {
        SearchResultView {
            name: self.name@,
            description: self.description@,
            version: self.version@,
            backend: self.backend@,
        }
    }
}

impl DeepView for SearchResult {
    type V = SearchResultView;

    open spec fn deep_view(&self) -> SearchResultView {
        self@
    }
}

/// Details of one package, as a backend reports them.
pub struct PackageInfo {
    pub name: String,
    pub version: String,
    pub description: String,
    pub backend: String,
    pub homepage: Option<String>,
    pub size: Option<String>,
    pub installed: bool,
}

/// The view of a `PackageInfo`.
pub struct PackageInfoView {
    pub name: Seq<char>,
    pub version: Seq<char>,
    pub description: Seq<char>,
    pub backend: Seq<char>,
    pub homepage: Option<Seq<char>>,
    pub size: Option<Seq<char>>,
    pub installed: bool,
}

impl View for PackageInfo {
    type V = PackageInfoView;

    open spec fn view(&self) -> PackageInfoView {
        PackageInfoView {
            name: self.name@,
            version: self.version@,
            description: self.description@,
            backend: self.backend@,
            homepage: self.homepage.deep_view(),
            size: self.size.deep_view(),
            installed: self.installed,
        }
    }
}

/// One installed package.
pub struct InstalledPackage {
    pub name: String,
    pub version: String,
    pub backend: String,
}

/// The view of an `InstalledPackage`.
pub struct InstalledPackageView {
    pub name: Seq<char>,
    pub version: Seq<char>,
    pub backend: Seq<char>,
}

impl View for InstalledPackage {
    type V = InstalledPackageView;

    open spec fn view(&self) -> InstalledPackageView {
        InstalledPackageView { name: self.name@, version: self.version@, backend: self.backend@ }
    }
}

impl DeepView for InstalledPackage {
    type V = InstalledPackageView;

    open spec fn deep_view(&self) -> InstalledPackageView {
        self@
    }
}

/// The text of a search hit: `name (description) - vversion [backend]`.
pub open spec fn search_result_text(r: SearchResultView) -> Seq<char> {
    r.name + " ("@ + r.description + ") - v"@ + r.version + " ["@ + r.backend + "]"@
}

impl SearchResult {
    /// The one-line text of this hit.
    pub fn to_display_string(&self) -> (s: String)
        ensures
            s@ == search_result_text(self@),
    {
        let mut s = self.name.clone();
        s.append(" (");
        s.append(self.description.as_str());
        s.append(") - v");
        s.append(self.version.as_str());
        s.append(" [");
        s.append(self.backend.as_str());
        s.append("]");
        s
    }
}

} // verus!
