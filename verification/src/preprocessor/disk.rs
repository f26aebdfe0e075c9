//! What the preprocessor knows of the file system.
use vstd::prelude::*;

use crate::names::NameMap;

verus! {

/// What stands at the two places of a module under one root.
#[derive(Debug)]
pub struct Probe {
    /// Whether there is a file of the module's name.
    pub file_exists: bool,
    /// The names of the files directly in the module's directory, empty where
    /// there is none; or why it cannot be listed.
    pub entries: Result<Vec<String>, String>,
}

/// The model of a probe.
#[verifier::ext_equal]
pub struct ProbeModel {
    pub file_exists: bool,
    pub entries: Result<Seq<Seq<char>>, Seq<char>>,
}

impl DeepView for Probe {
    type V = ProbeModel;

    open spec fn deep_view(&self) -> ProbeModel {
        ProbeModel {
            file_exists: self.file_exists,
            entries: match self.entries {
                Ok(names) => Ok(names.deep_view()),
                Err(reason) => Err(reason@),
            },
        }
    }
}

/// Something to find out about the file system.
#[derive(Debug, Clone, PartialEq, Eq)]
pub enum Query<S = String> {
    /// The canonical form of a path.
    Locate(S),
    /// The contents of a file.
    Read(S),
    /// What stands at the places of a module.
    Probe { file: S, dir: S },
}

impl DeepView for Query<String> {
    type V = Query<Seq<char>>;

    open spec fn deep_view(&self) -> Query<Seq<char>> {
        match *self {
            Query::Locate(path) => Query::Locate(path@),
            Query::Read(path) => Query::Read(path@),
            Query::Probe { file, dir } => Query::Probe { file: file@, dir: dir@ },
        }
    }
}

/// An answer, or why there is none.
pub open spec fn answer(r: Result<String, String>) -> Result<Seq<char>, Seq<char>> {
    match r {
        Ok(text) => Ok(text@),
        Err(reason) => Err(reason@),
    }
}

/// The model of a disk.
#[verifier::ext_equal]
pub struct DiskModel {
    pub paths: Map<Seq<char>, Result<Seq<char>, Seq<char>>>,
    pub contents: Map<Seq<char>, Result<Seq<char>, Seq<char>>>,
    pub probes: Map<Seq<char>, ProbeModel>,
}

/// What has been found out about the file system. The preprocessor says what
/// else it has to know; whoever can look adds it and starts over.
#[derive(Debug)]
pub struct Disk {
    /// The canonical form of each path asked for.
    pub paths: NameMap<Result<String, String>>,
    /// The contents of each file asked for, by its canonical path.
    pub contents: NameMap<Result<String, String>>,
    /// What stands at each module's places, by its directory.
    pub probes: NameMap<Probe>,
}

impl DeepView for Disk {
    type V = DiskModel;

    open spec fn deep_view(&self) -> DiskModel {
        DiskModel {
            paths: self.paths@.map_values(|r: Result<String, String>| answer(r)),
            contents: self.contents@.map_values(|r: Result<String, String>| answer(r)),
            probes: self.probes.deep_view(),
        }
    }
}

impl Disk {
    pub open spec fn wf(self) -> bool {
        self.paths.wf() && self.contents.wf() && self.probes.wf()
    }

    /// Nothing is known yet.
    pub fn new() -> (r: Disk)
        ensures
            r.wf(),
            r.deep_view() == (DiskModel {
                paths: Map::empty(),
                contents: Map::empty(),
                probes: Map::empty(),
            }),
    {
        let r = Disk { paths: NameMap::new(), contents: NameMap::new(), probes: NameMap::new() };
        assert(r.deep_view().paths =~= Map::empty());
        assert(r.deep_view().contents =~= Map::empty());
        assert(r.deep_view().probes =~= Map::empty());
        r
    }

    /// The canonical form of `path` is known.
    pub fn add_path(&mut self, path: String, canonical: Result<String, String>)
        requires
            old(self).wf(),
        ensures
            final(self).wf(),
            final(self).deep_view() == (DiskModel {
                paths: old(self).deep_view().paths.insert(path@, answer(canonical)),
                ..old(self).deep_view()
            }),
    {
        let _ = self.paths.insert(path, canonical);
        assert(self.deep_view().paths =~= old(self).deep_view().paths.insert(
            path@,
            answer(canonical),
        ));
    }

    /// The contents of the file `path` are known.
    pub fn add_contents(&mut self, path: String, contents: Result<String, String>)
        requires
            old(self).wf(),
        ensures
            final(self).wf(),
            final(self).deep_view() == (DiskModel {
                contents: old(self).deep_view().contents.insert(path@, answer(contents)),
                ..old(self).deep_view()
            }),
    {
        let _ = self.contents.insert(path, contents);
        assert(self.deep_view().contents =~= old(self).deep_view().contents.insert(
            path@,
            answer(contents),
        ));
    }

    /// What stands at the places of the module in `dir` is known.
    pub fn add_probe(&mut self, dir: String, probe: Probe)
        requires
            old(self).wf(),
        ensures
            final(self).wf(),
            final(self).deep_view() == (DiskModel {
                probes: old(self).deep_view().probes.insert(dir@, probe.deep_view()),
                ..old(self).deep_view()
            }),
    {
        let _ = self.probes.insert(dir, probe);
        assert(self.deep_view().probes =~= old(self).deep_view().probes.insert(
            dir@,
            probe.deep_view(),
        ));
    }

    pub fn locate(&self, path: &str) -> (r: Option<&Result<String, String>>)
        requires
            self.wf(),
        ensures
            match r {
                Some(found) => self.deep_view().paths.contains_key(path@)
                    && self.deep_view().paths[path@] == answer(*found),
                None => !self.deep_view().paths.contains_key(path@),
            },
    {
        self.paths.get(path)
    }

    pub fn read(&self, path: &str) -> (r: Option<&Result<String, String>>)
        requires
            self.wf(),
        ensures
            match r {
                Some(found) => self.deep_view().contents.contains_key(path@)
                    && self.deep_view().contents[path@] == answer(*found),
                None => !self.deep_view().contents.contains_key(path@),
            },
    {
        self.contents.get(path)
    }

    pub fn probe(&self, dir: &str) -> (r: Option<&Probe>)
        requires
            self.wf(),
        ensures
            match r {
                Some(found) => self.deep_view().probes.contains_key(dir@)
                    && self.deep_view().probes[dir@] == found.deep_view(),
                None => !self.deep_view().probes.contains_key(dir@),
            },
    {
        self.probes.get(dir)
    }
}

} // verus!
