//! The configuration of a run and the data that an annotation yields.

use vstd::prelude::*;

verus! {

/// What a run is configured with. Both values are used as given.
#[derive(Debug, PartialEq, Eq)]
pub struct Config {
    /// The marker that opens an annotation on a line.
    pub cup_pattern: String,
    /// The name of the remote type of an annotation that names none.
    pub remote_default: String,
}

/// What a [`Config`] stands for.
pub struct ConfigView {
    pub cup_pattern: Seq<char>,
    pub remote_default: Seq<char>,
}

impl View for Config {
    type V = ConfigView;

    open spec fn view(&self) -> ConfigView {
        ConfigView { cup_pattern: self.cup_pattern@, remote_default: self.remote_default@ }
    }
}

impl Clone for Config {
    fn clone(&self) -> (copy: Config)
        ensures
            copy == *self,
    {
        Config {
            cup_pattern: self.cup_pattern.clone(),
            remote_default: self.remote_default.clone(),
        }
    }
}

impl Default for Config {
    /// The marker `[cup]` and the remote type `GitHub`.
    fn default() -> (config: Config)
        ensures
            config@ == (ConfigView { cup_pattern: "[cup]"@, remote_default: "GitHub"@ }),
    {
        Config { cup_pattern: "[cup]".to_owned(), remote_default: "GitHub".to_owned() }
    }
}

/// A kind of release registry.
#[derive(Debug, Clone, Copy, PartialEq, Eq)]
pub enum Remote {
    GitHub,
}

impl Remote {
    /// The keyword that names this remote type in an annotation.
    pub open spec fn spec_keyword(self) -> Seq<char> {
        match self {
            Remote::GitHub => "GitHub"@,
        }
    }

    /// The remote type that the name `name` selects. A name that no remote
    /// type carries selects `GitHub`.
    pub open spec fn spec_from_name(name: Seq<char>) -> Remote {
        Remote::GitHub
    }

    /// The keyword that names this remote type in an annotation.
    pub fn keyword(self) -> (word: &'static str)
        ensures
            word@ == self.spec_keyword(),
    {
        match self {
            Remote::GitHub => "GitHub",
        }
    }

    /// The remote type that `name` selects: see [`Remote::spec_from_name`].
    pub fn from_name(name: &str) -> (remote: Remote)
        ensures
            remote == Remote::spec_from_name(name@),
    {
        Remote::GitHub
    }
}

/// An entry of a release registry.
#[derive(Debug, PartialEq, Eq)]
pub struct Tag {
    /// What identifies the entry within its registry, such as `owner/repo`.
    pub remote_tag: String,
    /// The registry.
    pub remote_type: Remote,
}

/// What a [`Tag`] stands for.
pub struct TagView {
    pub remote_tag: Seq<char>,
    pub remote_type: Remote,
}

impl View for Tag {
    type V = TagView;

    open spec fn view(&self) -> TagView {
        TagView { remote_tag: self.remote_tag@, remote_type: self.remote_type }
    }
}

impl Clone for Tag {
    fn clone(&self) -> (copy: Tag)
        ensures
            copy == *self,
    {
        Tag { remote_tag: self.remote_tag.clone(), remote_type: self.remote_type }
    }
}

/// What one annotation asks for.
#[derive(Debug, PartialEq, Eq)]
pub struct Target {
    /// `<path>:<line number>`, lines counted from one.
    pub name: String,
    /// The registry entry whose latest tag the line follows.
    pub tag: Tag,
}

/// What a [`Target`] stands for.
pub struct TargetView {
    pub name: Seq<char>,
    pub tag: TagView,
}

impl View for Target {
    type V = TargetView;

    open spec fn view(&self) -> TargetView {
        TargetView { name: self.name@, tag: self.tag@ }
    }
}

impl Clone for Target {
    fn clone(&self) -> (copy: Target)
        ensures
            copy == *self,
    {
        Target { name: self.name.clone(), tag: self.tag.clone() }
    }
}

} // verus!
