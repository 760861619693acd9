//! Data types for installed extensions and their manifests, and the
//! pure step of installation: deriving an installed extension record
//! from a parsed manifest.
//!
//! Downloading, unpacking and reading manifests from disk is work for
//! an outer layer; the shape of the records and the manifest-to-record
//! derivation are owned and specified here.

use vstd::prelude::*;

verus! {

/// One command an extension contributes.
pub struct ExtensionCommand {
    pub id: String,
    pub title: String,
    pub category: Option<String>,
    pub icon: Option<String>,
    pub keybinding: Option<String>,
}

/// One view an extension contributes.
pub struct ExtensionView {
    pub id: String,
    pub name: String,
    pub location: String,
    pub icon: Option<String>,
}

/// One menu entry an extension contributes.
pub struct ExtensionMenu {
    pub id: String,
    pub label: String,
    pub command: String,
    pub location: String,
}

/// One theme an extension contributes.
pub struct ExtensionTheme {
    pub id: String,
    pub label: String,
    pub path: String,
    pub dark: bool,
}

/// One language an extension contributes.
pub struct ExtensionLanguage {
    pub id: String,
    pub extensions: Vec<String>,
    pub aliases: Vec<String>,
    pub configuration: String,
}

/// Everything an extension contributes to the application.
pub struct ExtensionContributions {
    pub commands: Vec<ExtensionCommand>,
    pub views: Vec<ExtensionView>,
    pub menus: Vec<ExtensionMenu>,
    pub themes: Vec<ExtensionTheme>,
    pub languages: Vec<ExtensionLanguage>,
}

/// The manifest shipped inside an extension package. `dependencies`
/// maps an extension identifier to a version requirement.
pub struct ExtensionManifest {
    pub id: String,
    pub name: String,
    pub version: String,
    pub description: String,
    pub author: String,
    pub main: String,
    pub icon: Option<String>,
    pub categories: Vec<String>,
    pub keywords: Vec<String>,
    pub contributes: ExtensionContributions,
    pub dependencies: Vec<(String, String)>,
    pub permissions: Vec<String>,
}

/// One installed extension as the application tracks it.
pub struct Extension {
    pub id: String,
    pub name: String,
    pub version: String,
    pub description: String,
    pub author: String,
    pub repository: String,
    pub icon: Option<String>,
    pub categories: Vec<String>,
    pub keywords: Vec<String>,
    pub enabled: bool,
    pub installed: bool,
    pub path: Option<String>,
    pub dependencies: Vec<String>,
    pub permissions: Vec<String>,
}

/// Copies a vector of strings, value for value.
fn clone_strings(v: &Vec<String>) -> (r: Vec<String>)
    ensures
        r@ == v@,
{
    let mut out: Vec<String> = Vec::new();
    let mut i: usize = 0;
    while i < v.len()
        invariant
            i <= v.len(),
            out@ == v@.take(i as int),
        decreases v.len() - i,
    {
        out.push(v[i].clone());
        proof {
            assert(out@ =~= v@.take(i + 1 as int));
        }
        i = i + 1;
    }
    proof {
        assert(out@ =~= v@);
    }
    out
}

/// Copies an optional string, value for value.
fn clone_opt_string(v: &Option<String>) -> (r: Option<String>)
    ensures
        r == *v,
{
    match v {
        Some(s) => Some(s.clone()),
        None => None,
    }
}

impl Extension {
    /// The installed-extension record a freshly loaded or installed
    /// manifest gives rise to: same identity, description and
    /// contribution lists, enabled and installed from the start, no
    /// repository yet, and one dependency per manifest dependency key.
    pub fn from_manifest(manifest: &ExtensionManifest, path: Option<String>) -> (r: Extension)
        ensures
            r.id == manifest.id,
            r.name == manifest.name,
            r.version == manifest.version,
            r.description == manifest.description,
            r.author == manifest.author,
            r.repository@ == Seq::<char>::empty(),
            r.icon == manifest.icon,
            r.categories@ == manifest.categories@,
            r.keywords@ == manifest.keywords@,
            r.enabled,
            r.installed,
            r.path == path,
            r.dependencies@ =~= manifest.dependencies@.map_values(|p: (String, String)| p.0),
            r.permissions@ == manifest.permissions@,
    {
        let mut dependencies: Vec<String> = Vec::new();
        let mut i: usize = 0;
        while i < manifest.dependencies.len()
            invariant
                i <= manifest.dependencies.len(),
                dependencies@ == manifest.dependencies@.take(i as int).map_values(
                    |p: (String, String)| p.0,
                ),
            decreases manifest.dependencies.len() - i,
        {
            dependencies.push(manifest.dependencies[i].0.clone());
            proof {
                assert(dependencies@ =~= manifest.dependencies@.take(i + 1 as int).map_values(
                    |p: (String, String)| p.0,
                ));
            }
            i = i + 1;
        }
        proof {
            assert(manifest.dependencies@.take(manifest.dependencies@.len() as int)
                =~= manifest.dependencies@);
        }
        Extension {
            id: manifest.id.clone(),
            name: manifest.name.clone(),
            version: manifest.version.clone(),
            description: manifest.description.clone(),
            author: manifest.author.clone(),
            repository: String::new(),
            icon: clone_opt_string(&manifest.icon),
            categories: clone_strings(&manifest.categories),
            keywords: clone_strings(&manifest.keywords),
            enabled: true,
            installed: true,
            path,
            dependencies,
            permissions: clone_strings(&manifest.permissions),
        }
    }
}

} // verus!
