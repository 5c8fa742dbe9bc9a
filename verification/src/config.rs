//! The configuration of a deck and the paths that the watcher observes.

use vstd::prelude::*;

verus! {

/// Where a deck is read from and written to.
#[derive(Debug, Clone, PartialEq, Eq)]
pub struct Config {
    /// The markup file.
    pub src: String,
    /// The output directory.
    pub out: String,
    /// The template file.
    pub template: String,
    /// The directory of static assets.
    pub static_: String,
    /// Where a deployment mirrors the output to, if anywhere.
    pub deploy: Option<String>,
}

/// A path to watch, with or without what lies below it.
#[derive(Debug, Clone, PartialEq, Eq)]
pub struct WatchTarget {
    pub path: String,
    pub recursive: bool,
}

/// The paths that the watcher observes: the markup file and the template,
/// each by itself, and the static assets with everything below them.
pub fn watch_targets(config: &Config) -> (targets: Vec<WatchTarget>)
    ensures
        targets.len() == 3,
        targets[0].path@ == config.src@ && !targets[0].recursive,
        targets[1].path@ == config.template@ && !targets[1].recursive,
        targets[2].path@ == config.static_@ && targets[2].recursive,
{
    let mut targets: Vec<WatchTarget> = Vec::new();
    targets.push(WatchTarget { path: config.src.clone(), recursive: false });
    targets.push(WatchTarget { path: config.template.clone(), recursive: false });
    targets.push(WatchTarget { path: config.static_.clone(), recursive: true });
    targets
}

} // verus!
