use vstd::prelude::*;

use vstd::string::StringExecFns;

use crate::models::formula::base::clone_opt_string;
use crate::models::keg;

verus! {

pub type Store = keg::Store<Receipt>;

/// A parsed installation receipt: which source spec the unit was built from,
/// the resolved versions, and whether it was installed on request or only as
/// a dependency of something else.
#[derive(Debug)]
pub struct Receipt {
    pub source: Source,
    pub installed_as_dependency: bool,
    pub installed_on_request: bool,
}

/// The mathematical value of a receipt.
pub struct ReceiptModel {
    pub source: SourceModel,
    pub installed_as_dependency: bool,
    pub installed_on_request: bool,
}

impl DeepView for Receipt {
    type V = ReceiptModel;

    open spec fn deep_view(&self) -> ReceiptModel {
        ReceiptModel {
            source: self.source.deep_view(),
            installed_as_dependency: self.installed_as_dependency,
            installed_on_request: self.installed_on_request,
        }
    }
}

impl Clone for Receipt {
    fn clone(&self) -> (r: Self)
        ensures
            r.deep_view() == self.deep_view(),
    {
        Receipt {
            source: self.source.clone(),
            installed_as_dependency: self.installed_as_dependency,
            installed_on_request: self.installed_on_request,
        }
    }
}

/// The source spec a receipt records: stable or head, with the versions the
/// build resolved.
#[derive(Debug)]
pub struct Source {
    pub spec: Spec,
    pub versions: Versions,
}

/// The mathematical value of a receipt source.
pub struct SourceModel {
    pub spec: Spec,
    pub versions: VersionsModel,
}

impl DeepView for Source {
    type V = SourceModel;

    open spec fn deep_view(&self) -> SourceModel {
        SourceModel { spec: self.spec, versions: self.versions.deep_view() }
    }
}

impl Clone for Source {
    fn clone(&self) -> (r: Self)
        ensures
            r.deep_view() == self.deep_view(),
    {
        Source { spec: self.spec, versions: self.versions.clone() }
    }
}

impl Source {
    /// The version this receipt resolves to: the stable version under the
    /// stable spec; under the head spec, the recorded head version, or the
    /// word HEAD where none was recorded.
    pub open spec fn spec_version(self) -> Seq<char> {
        match self.spec {
            Spec::Stable => self.versions.stable@,
            Spec::Head => match self.versions.head {
                Some(h) => h@,
                None => "HEAD"@,
            },
        }
    }

    pub fn version(&self) -> (r: String)
        ensures
            r@ == self.spec_version(),
    {
        match self.spec {
            Spec::Stable => self.versions.stable.clone(),
            Spec::Head => match &self.versions.head {
                Some(h) => h.clone(),
                None => String::from_str("HEAD"),
            },
        }
    }
}

/// Which source a unit was installed from.
#[derive(Clone, Copy, Debug, PartialEq, Eq, Structural)]
pub enum Spec {
    Stable,
    Head,
}

/// The versions a receipt records.
#[derive(Debug)]
pub struct Versions {
    pub stable: String,
    pub head: Option<String>,
}

/// The mathematical value of receipt versions.
pub struct VersionsModel {
    pub stable: Seq<char>,
    pub head: Option<Seq<char>>,
}

impl DeepView for Versions {
    type V = VersionsModel;

    open spec fn deep_view(&self) -> VersionsModel {
        VersionsModel { stable: self.stable@, head: self.head.deep_view() }
    }
}

impl Clone for Versions {
    fn clone(&self) -> (r: Self)
        ensures
            r.deep_view() == self.deep_view(),
    {
        Versions { stable: self.stable.clone(), head: clone_opt_string(&self.head) }
    }
}

} // verus!
