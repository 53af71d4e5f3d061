use vstd::prelude::*;

use crate::dashboard::{BuildState, MooncakeSource, CBT};

verus! {

/// What the driver of one source's build is asked to do next.
#[derive(Debug)]
pub enum BuildAction {
    /// Clone the repository at `url` into the source's working area, once,
    /// before any revision is checked out.
    Clone { url: String },
    /// Fetch `revision` (check it out, or download that package version),
    /// then run the matrix on it.
    Fetch { revision: String },
    /// Every declared version or revision has an entry.
    Done,
}

/// The build of one source in progress: its declared versions or revisions
/// and one entry for each that has been handled.
pub struct BuildRun {
    source_index: usize,
    revisions: Vec<String>,
    clone_url: Option<String>,
    cbts: Vec<Option<CBT>>,
}

impl BuildRun {
    /// The index of the source being built.
    pub closed spec fn source_index(&self) -> usize {
        self.source_index
    }

    /// The versions or revisions to handle, in declaration order.
    pub closed spec fn revisions(&self) -> Seq<String> {
        self.revisions@
    }

    /// The repository still to be cloned, if any.
    pub closed spec fn clone_url(&self) -> Option<String> {
        self.clone_url
    }

    /// The entries so far: a CBT for each fetched revision, `None` for each
    /// that could not be fetched.
    pub closed spec fn cbts(&self) -> Seq<Option<CBT>> {
        self.cbts@
    }

    pub open spec fn wf(&self) -> bool {
        self.cbts().len() <= self.revisions().len()
    }

    /// Whether every declared version or revision has its entry.
    pub open spec fn finished(&self) -> bool {
        self.clone_url() is None && self.cbts().len() == self.revisions().len()
    }

    /// Starts the build of `source`: a repository must be cloned first.
    pub fn new(source: &MooncakeSource) -> (r: Self)
        ensures
            r.wf(),
            r.source_index() == source.index_of(),
            r.revisions() == source.revisions(),
            r.cbts() == Seq::<Option<CBT>>::empty(),
            match source {
                MooncakeSource::Git { url, .. } => r.clone_url() == Some(*url),
                MooncakeSource::MooncakesIO { .. } => r.clone_url() is None,
            },
    {
        match source {
            MooncakeSource::MooncakesIO { version, index, .. } => BuildRun {
                source_index: *index,
                revisions: version.clone(),
                clone_url: None,
                cbts: Vec::new(),
            },
            MooncakeSource::Git { url, rev, index, .. } => BuildRun {
                source_index: *index,
                revisions: rev.clone(),
                clone_url: Some(url.clone()),
                cbts: Vec::new(),
            },
        }
    }

    /// The next step: the clone, then a fetch of each revision in order.
    pub fn next_action(&self) -> (a: BuildAction)
        requires
            self.wf(),
        ensures
            self.clone_url() matches Some(u) ==> (a == (BuildAction::Clone { url: u })),
            (self.clone_url() is None && self.cbts().len() < self.revisions().len()) ==> (a
                == (BuildAction::Fetch { revision: self.revisions()[self.cbts().len() as int] })),
            self.finished() ==> (a is Done),
    {
        match &self.clone_url {
            Some(url) => BuildAction::Clone { url: url.clone() },
            None => {
                if self.cbts.len() < self.revisions.len() {
                    BuildAction::Fetch { revision: self.revisions[self.cbts.len()].clone() }
                } else {
                    BuildAction::Done
                }
            },
        }
    }

    /// The repository has been cloned.
    pub fn record_cloned(&mut self)
        requires
            old(self).wf(),
            old(self).clone_url() is Some,
        ensures
            final(self).wf(),
            final(self).clone_url() is None,
            final(self).source_index() == old(self).source_index(),
            final(self).revisions() == old(self).revisions(),
            final(self).cbts() == old(self).cbts(),
    {
        self.clone_url = None;
    }

    /// The next revision could not be fetched: its entry is absent, and the
    /// entries before it stay as they were.
    pub fn record_fetch_failed(&mut self)
        requires
            old(self).wf(),
            !old(self).finished(),
            old(self).clone_url() is None,
        ensures
            final(self).wf(),
            final(self).clone_url() is None,
            final(self).source_index() == old(self).source_index(),
            final(self).revisions() == old(self).revisions(),
            final(self).cbts() == old(self).cbts().push(None),
    {
        self.cbts.push(None);
    }

    /// The matrix ran on the next revision and gave `cbt`.
    pub fn record_cbt(&mut self, cbt: CBT)
        requires
            old(self).wf(),
            !old(self).finished(),
            old(self).clone_url() is None,
        ensures
            final(self).wf(),
            final(self).clone_url() is None,
            final(self).source_index() == old(self).source_index(),
            final(self).revisions() == old(self).revisions(),
            final(self).cbts() == old(self).cbts().push(Some(cbt)),
    {
        self.cbts.push(Some(cbt));
    }

    /// The source's results: one entry per declared version or revision, in
    /// declaration order.
    pub fn finish(self) -> (r: BuildState)
        requires
            self.wf(),
            self.finished(),
        ensures
            r.source == self.source_index(),
            r.cbts@ == self.cbts(),
            r.cbts@.len() == self.revisions().len(),
    {
        BuildState { source: self.source_index, cbts: self.cbts }
    }
}

} // verus!
