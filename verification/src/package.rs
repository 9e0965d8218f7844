//! The package model and the registry-free part of package management:
//! package descriptions, configuration data, the error vocabulary, and the
//! record of what is installed. Downloading, extraction and cache-directory
//! handling belong to the host around this library.

use vstd::prelude::*;

use crate::strutil::str_copy;
use crate::strutil::usize_to_string;
use crate::table::assoc_put;
use crate::table::spec_assoc;

verus! {

/// One dependency requirement of a package.
#[derive(Clone, Debug)]
pub struct Dependency {
    pub name: String,
    pub version_req: String,
}

/// One package with its declared dependencies.
#[derive(Clone, Debug)]
pub struct Package {
    pub name: String,
    pub version: String,
    pub dependencies: Vec<Dependency>,
}

/// A project's package configuration.
#[derive(Clone, Debug)]
pub struct PackageConfig {
    pub name: String,
    pub version: String,
    pub authors: Vec<String>,
    pub description: Option<String>,
    pub dependencies: Vec<(String, String)>,
    pub dev_dependencies: Vec<(String, String)>,
    pub build_dependencies: Vec<(String, String)>,
}

/// A failure in package management.
#[derive(Clone, Debug)]
pub enum PackageError {
    ConfigError(String),
    CacheError(String),
    NetworkError(String),
    PackageNotFound(String),
    VersionNotFound(String),
    InstallError(String),
    UninstallError(String),
    UpdateError(String),
    ListError(String),
}

/// The rendered message of a package-management failure.
pub open spec fn spec_package_error_message(e: PackageError) -> Seq<char> {
    match e {
        PackageError::ConfigError(msg) => "Configuration error: "@ + msg@,
        PackageError::CacheError(msg) => "Cache error: "@ + msg@,
        PackageError::NetworkError(msg) => "Network error: "@ + msg@,
        PackageError::PackageNotFound(name) => "Package not found: "@ + name@,
        PackageError::VersionNotFound(version) => "Version not found: "@ + version@,
        PackageError::InstallError(msg) => "Installation error: "@ + msg@,
        PackageError::UninstallError(msg) => "Uninstallation error: "@ + msg@,
        PackageError::UpdateError(msg) => "Update error: "@ + msg@,
        PackageError::ListError(msg) => "List error: "@ + msg@,
    }
}

impl PackageError {
    /// Renders the failure as its user-facing message.
    pub fn message(&self) -> (r: String)
        ensures
            r@ == spec_package_error_message(*self),
    {
        match self {
            PackageError::ConfigError(msg) => {
                let mut out = str_copy("Configuration error: ");
                out.append(msg.as_str());
                out
            },
            PackageError::CacheError(msg) => {
                let mut out = str_copy("Cache error: ");
                out.append(msg.as_str());
                out
            },
            PackageError::NetworkError(msg) => {
                let mut out = str_copy("Network error: ");
                out.append(msg.as_str());
                out
            },
            PackageError::PackageNotFound(name) => {
                let mut out = str_copy("Package not found: ");
                out.append(name.as_str());
                out
            },
            PackageError::VersionNotFound(version) => {
                let mut out = str_copy("Version not found: ");
                out.append(version.as_str());
                out
            },
            PackageError::InstallError(msg) => {
                let mut out = str_copy("Installation error: ");
                out.append(msg.as_str());
                out
            },
            PackageError::UninstallError(msg) => {
                let mut out = str_copy("Uninstallation error: ");
                out.append(msg.as_str());
                out
            },
            PackageError::UpdateError(msg) => {
                let mut out = str_copy("Update error: ");
                out.append(msg.as_str());
                out
            },
            PackageError::ListError(msg) => {
                let mut out = str_copy("List error: ");
                out.append(msg.as_str());
                out
            },
        }
    }
}

/// Tracks which package versions a registry serves this project, and which
/// are recorded as installed. Fetching and unpacking are the host's job; it
/// records the outcome here.
#[derive(Debug)]
pub struct PackageManager {
    registry_url: String,
    cache_dir: String,
    installed_packages: Vec<(String, String)>,
}

impl PackageManager {
    /// The installed packages: name to version.
    pub closed spec fn spec_installed(&self) -> Seq<(String, String)> {
        self.installed_packages@
    }

    /// The registry this manager resolves against.
    pub closed spec fn spec_registry_url(&self) -> Seq<char> {
        self.registry_url@
    }

    /// The cache directory the host unpacks into.
    pub closed spec fn spec_cache_dir(&self) -> Seq<char> {
        self.cache_dir@
    }

    /// A manager over the given registry and cache location, with nothing
    /// recorded as installed.
    pub fn new(registry_url: &str, cache_dir: &str) -> (r: PackageManager)
        ensures
            r.spec_registry_url() == registry_url@,
            r.spec_cache_dir() == cache_dir@,
            r.spec_installed().len() == 0,
    {
        PackageManager {
            registry_url: str_copy(registry_url),
            cache_dir: str_copy(cache_dir),
            installed_packages: Vec::new(),
        }
    }

    /// Records a package version as installed; a second install of the same
    /// name replaces the recorded version.
    pub fn install(&mut self, package_name: &str, version: &str) -> (r: Result<(), PackageError>)
        ensures
            r is Ok,
            spec_assoc(final(self).spec_installed(), package_name@) matches Some(v) && v@
                == version@,
            forall|other: Seq<char>|
                other != package_name@ ==> spec_assoc(final(self).spec_installed(), other)
                    == spec_assoc(old(self).spec_installed(), other),
            final(self).spec_registry_url() == old(self).spec_registry_url(),
            final(self).spec_cache_dir() == old(self).spec_cache_dir(),
    {
        assoc_put(&mut self.installed_packages, str_copy(package_name), str_copy(version));
        Ok(())
    }

    /// The recorded version of a package, if it is installed.
    pub fn installed_version(&self, package_name: &str) -> (r: Option<&String>)
        ensures
            match r {
                Some(v) => spec_assoc(self.spec_installed(), package_name@) == Some(*v),
                None => spec_assoc(self.spec_installed(), package_name@) is None,
            },
    {
        crate::table::assoc_get(&self.installed_packages, package_name)
    }

    /// The transitive dependency closure this registry model can resolve
    /// without network access: none beyond those the package itself names.
    pub fn resolve_dependencies(&self, package: &Package) -> (r: Result<Vec<Package>, PackageError>)
        ensures
            r matches Ok(resolved) && resolved@.len() == package.dependencies@.len(),
            r matches Ok(resolved) ==> forall|i: int|
                0 <= i < resolved@.len() ==> (#[trigger] resolved@[i].name)@
                    == package.dependencies@[i].name@ && resolved@[i].version@
                    == package.dependencies@[i].version_req@ && resolved@[i].dependencies@.len()
                    == 0,
    {
        let mut resolved: Vec<Package> = Vec::new();
        let mut i: usize = 0;
        while i < package.dependencies.len()
            invariant
                i <= package.dependencies@.len(),
                resolved@.len() == i,
                forall|j: int|
                    0 <= j < i ==> (#[trigger] resolved@[j].name)@
                        == package.dependencies@[j].name@ && resolved@[j].version@
                        == package.dependencies@[j].version_req@ && resolved@[j].dependencies@.len()
                        == 0,
            decreases package.dependencies@.len() - i,
        {
            let dep = &package.dependencies[i];
            resolved.push(
                Package {
                    name: str_copy(dep.name.as_str()),
                    version: str_copy(dep.version_req.as_str()),
                    dependencies: Vec::new(),
                },
            );
            i = i + 1;
        }
        Ok(resolved)
    }

    /// How many packages are recorded as installed, rendered for reports.
    pub fn installed_count_label(&self) -> (r: String)
        ensures
            r@ == "installed packages: "@ + crate::strutil::spec_decimal(
                self.spec_installed().len(),
            ),
    {
        let mut out = str_copy("installed packages: ");
        out.append(usize_to_string(self.installed_packages.len()).as_str());
        out
    }
}

} // verus!
