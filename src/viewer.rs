use vstd::prelude::*;

verus! {

/// A stored job entry as the viewer shows it.
#[derive(Debug)]
pub struct JobListing {
    pub id: String,
    pub title: String,
    pub company: String,
    pub description: String,
    pub is_applied: bool,
}

/// A job entry as values.
pub struct JobView {
    pub id: Seq<char>,
    pub title: Seq<char>,
    pub company: Seq<char>,
    pub description: Seq<char>,
    pub is_applied: bool,
}

impl View for JobListing {
    type V = JobView;

    open spec fn view(&self) -> JobView {
        JobView {
            id: self.id@,
            title: self.title@,
            company: self.company@,
            description: self.description@,
            is_applied: self.is_applied,
        }
    }
}

pub open spec fn job_views(jobs: Seq<JobListing>) -> Seq<JobView> {
    jobs.map_values(|j: JobListing| j@)
}

/// The first job whose id is `id`, if any.
pub open spec fn first_with_id(jobs: Seq<JobView>, id: Seq<char>) -> Option<int> {
    if exists|i: int| 0 <= i < jobs.len() && #[trigger] jobs[i].id == id {
        Some(
            choose|i: int|
                0 <= i < jobs.len() && #[trigger] jobs[i].id == id && forall|k: int|
                    0 <= k < i ==> #[trigger] jobs[k].id != id,
        )
    } else {
        None
    }
}

/// The effect of setting the applied flag to `applied`: the first job with
/// the selected id gets the flag and the flag is to be stored under that id;
/// without such a job nothing changes and nothing is stored.
pub open spec fn applied_update(before: MyApp, after: MyApp, applied: bool, r: ViewerAction) -> bool {
    &&& after.spec_selected() == before.spec_selected()
    &&& after.spec_about_open() == before.spec_about_open()
    &&& match before.spec_selected() {
        Some(id) => match first_with_id(before.spec_jobs(), id) {
            Some(i) => {
                let j = before.spec_jobs()[i];
                &&& after.spec_jobs() == before.spec_jobs().update(
                    i,
                    JobView { is_applied: applied, ..j },
                )
                &&& match r {
                    ViewerAction::PersistApplied { id: rid, applied: ra } => rid@ == id && ra
                        == applied,
                    ViewerAction::Nothing => false,
                }
            },
            None => after.spec_jobs() == before.spec_jobs() && r is Nothing,
        },
        None => after.spec_jobs() == before.spec_jobs() && r is Nothing,
    }
}

/// What the user did in the viewer window.
pub enum ViewerEvent {
    ShowAbout,
    CloseAbout,
    Select { id: String },
    SetApplied { applied: bool },
}

/// What the window loop must do after an event.
#[derive(Debug)]
pub enum ViewerAction {
    Nothing,
    /// Store the applied flag of the job with this id.
    PersistApplied { id: String, applied: bool },
}

/// State of the viewer window: the listed jobs, which one is selected and
/// whether the about dialog is open.
pub struct MyApp {
    jobs: Vec<JobListing>,
    db_path: String,
    selected_job_id: Option<String>,
    show_about_window: bool,
}

impl MyApp {
    pub closed spec fn spec_jobs(&self) -> Seq<JobView> {
        job_views(self.jobs@)
    }

    pub closed spec fn spec_db_path(&self) -> Seq<char> {
        self.db_path@
    }

    pub closed spec fn spec_selected(&self) -> Option<Seq<char>> {
        match self.selected_job_id {
            Some(s) => Some(s@),
            None => None,
        }
    }

    pub closed spec fn spec_about_open(&self) -> bool {
        self.show_about_window
    }

    /// A window listing `jobs`, with nothing selected and the dialog closed.
    pub fn new(jobs: Vec<JobListing>, db_path: String) -> (r: MyApp)
        ensures
            r.spec_jobs() == job_views(jobs@),
            r.spec_db_path() == db_path@,
            r.spec_selected() is None,
            !r.spec_about_open(),
    {
        MyApp { jobs, db_path, selected_job_id: None, show_about_window: false }
    }

    pub fn jobs(&self) -> (r: &Vec<JobListing>)
        ensures
            job_views(r@) == self.spec_jobs(),
    {
        &self.jobs
    }

    pub fn db_path(&self) -> (r: &String)
        ensures
            r@ == self.spec_db_path(),
    {
        &self.db_path
    }

    pub fn show_about_window(&self) -> (r: bool)
        ensures
            r == self.spec_about_open(),
    {
        self.show_about_window
    }

    /// Whether the job at `index` is the selected one.
    pub fn is_selected(&self, index: usize) -> (r: bool)
        requires
            index < self.spec_jobs().len(),
        ensures
            r == (self.spec_selected() == Some(self.spec_jobs()[index as int].id)),
    {
        match &self.selected_job_id {
            Some(id) => <String as PartialEq>::eq(id, &self.jobs[index].id),
            None => false,
        }
    }

    /// The position of the selected job: the first job with the selected id.
    pub fn selected_index(&self) -> (r: Option<usize>)
        ensures
            r matches Some(i) ==> i < self.spec_jobs().len() && self.spec_selected() == Some(
                self.spec_jobs()[i as int].id,
            ),
            match self.spec_selected() {
                Some(id) => match r {
                    Some(i) => first_with_id(self.spec_jobs(), id) == Some(i as int),
                    None => first_with_id(self.spec_jobs(), id) is None,
                },
                None => r is None,
            },
    {
        match &self.selected_job_id {
            None => None,
            Some(id) => {
                let mut i: usize = 0;
                while i < self.jobs.len()
                    invariant
                        i <= self.jobs@.len(),
                        self.selected_job_id == Some(*id),
                        forall|k: int| 0 <= k < i ==> #[trigger] self.jobs@[k].id@ != id@,
                    decreases self.jobs@.len() - i,
                {
                    if <String as PartialEq>::eq(&self.jobs[i].id, id) {
                        proof {
                            let js = self.spec_jobs();
                            assert(js[i as int].id == id@);
                            assert forall|k: int| 0 <= k < i implies #[trigger] js[k].id != id@ by {
                                assert(js[k].id == self.jobs@[k].id@);
                            }
                            let c = choose|c: int|
                                0 <= c < js.len() && #[trigger] js[c].id == id@ && forall|k: int|
                                    0 <= k < c ==> #[trigger] js[k].id != id@;
                            if c < i {
                                assert(js[c].id == self.jobs@[c].id@);
                            }
                            if c > i {
                                assert(js[i as int].id != id@);
                            }
                        }
                        return Some(i);
                    }
                    i = i + 1;
                }
                proof {
                    let js = self.spec_jobs();
                    assert forall|k: int| 0 <= k < js.len() implies #[trigger] js[k].id != id@ by {
                        assert(js[k].id == self.jobs@[k].id@);
                    }
                }
                None
            },
        }
    }

    /// Sets the applied flag of the selected job and asks for it to be
    /// stored; does nothing where no job is selected.
    pub fn set_applied(&mut self, applied: bool) -> (r: ViewerAction)
        ensures
            final(self).spec_db_path() == old(self).spec_db_path(),
            applied_update(*old(self), *final(self), applied, r),
    {
        match self.selected_index() {
            None => ViewerAction::Nothing,
            Some(i) => {
                let ghost old_jobs = self.jobs@;
                let id = self.jobs[i].id.clone();
                let mut job = self.jobs.remove(i);
                job.is_applied = applied;
                self.jobs.insert(i, job);
                proof {
                    assert(job_views(self.jobs@) =~= job_views(old_jobs).update(
                        i as int,
                        JobView { is_applied: applied, ..job_views(old_jobs)[i as int] },
                    ));
                }
                ViewerAction::PersistApplied { id, applied }
            },
        }
    }

    /// Applies one user event. Selecting records the id; the about dialog
    /// opens and closes; setting the applied flag changes the selected job
    /// and asks for the flag to be stored, or does nothing where no job is
    /// selected.
    pub fn handle(&mut self, event: ViewerEvent) -> (r: ViewerAction)
        ensures
            final(self).spec_db_path() == old(self).spec_db_path(),
            match event {
                ViewerEvent::ShowAbout => {
                    &&& final(self).spec_about_open()
                    &&& final(self).spec_jobs() == old(self).spec_jobs()
                    &&& final(self).spec_selected() == old(self).spec_selected()
                    &&& r is Nothing
                },
                ViewerEvent::CloseAbout => {
                    &&& !final(self).spec_about_open()
                    &&& final(self).spec_jobs() == old(self).spec_jobs()
                    &&& final(self).spec_selected() == old(self).spec_selected()
                    &&& r is Nothing
                },
                ViewerEvent::Select { id } => {
                    &&& final(self).spec_selected() == Some(id@)
                    &&& final(self).spec_jobs() == old(self).spec_jobs()
                    &&& final(self).spec_about_open() == old(self).spec_about_open()
                    &&& r is Nothing
                },
                ViewerEvent::SetApplied { applied } => applied_update(
                    *old(self),
                    *final(self),
                    applied,
                    r,
                ),
            },
    {
        match event {
            ViewerEvent::ShowAbout => {
                self.show_about_window = true;
                ViewerAction::Nothing
            },
            ViewerEvent::CloseAbout => {
                self.show_about_window = false;
                ViewerAction::Nothing
            },
            ViewerEvent::Select { id } => {
                self.selected_job_id = Some(id);
                ViewerAction::Nothing
            },
            ViewerEvent::SetApplied { applied } => self.set_applied(applied),
        }
    }
}

} // verus!
