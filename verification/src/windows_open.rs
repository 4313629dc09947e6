//! Opening links on Windows: with the browser of the topmost window, or else with the one that
//! is remembered.
use crate::messages::NO_BROWSER_ADVICE;
use crate::text::{dedup, deduplicated, join, joined, view_of, views};
use vstd::prelude::*;

verus! {

/// Why the topmost window is of no help.
pub const NO_BROWSER_WINDOW: &'static str = "no browser window is open";

/// What comes next while links are opened.
#[derive(Debug, PartialEq, Eq)]
pub enum Action<S = String> {
    /// Open `link` under the id `program_id`.
    Launch { link: S, program_id: S },
    /// All links are open: remember the browser that opened them.
    Save { program_id: S },
    /// No browser could open the links.
    Fail { message: S },
}

impl View for Action<String> {
    type V = Action<Seq<char>>;

    open spec fn view(&self) -> Action<Seq<char>> {
        match self {
            Action::Launch { link, program_id } => Action::Launch {
                link: link@,
                program_id: program_id@,
            },
            Action::Save { program_id } => Action::Save { program_id: program_id@ },
            Action::Fail { message } => Action::Fail { message: message@ },
        }
    }
}

/// The characters of a browser to try, or of the reason why there is none.
pub open spec fn candidate_view(candidate: Result<String, String>) -> Result<Seq<char>, Seq<char>> {
    match candidate {
        Ok(id) => Ok(id@),
        Err(reason) => Err(reason@),
    }
}

/// How far the opening of links has come.
#[derive(Debug)]
pub struct Opening {
    pub links: Vec<String>,
    /// The browsers to try, in order, each with a reason in its place where there is none.
    pub candidates: Vec<Result<String, String>>,
    /// How many of the candidates have failed.
    pub tried: usize,
    /// How many of the links the current candidate has opened.
    pub opened: usize,
    /// Why the candidates failed.
    pub failures: Vec<String>,
}

/// The characters of an `Opening`.
#[verifier::ext_equal]
pub struct Progress {
    pub links: Seq<Seq<char>>,
    pub candidates: Seq<Result<Seq<char>, Seq<char>>>,
    pub tried: int,
    pub opened: int,
    pub failures: Seq<Seq<char>>,
}

impl View for Opening {
    type V = Progress;

    open spec fn view(&self) -> Progress {
        Progress {
            links: views(self.links@),
            candidates: self.candidates@.map_values(
                |candidate: Result<String, String>| candidate_view(candidate),
            ),
            tried: self.tried as int,
            opened: self.opened as int,
            failures: views(self.failures@),
        }
    }
}

/// The words for a link that did not open.
pub open spec fn launch_failure(link: Seq<char>, program_id: Seq<char>, cause: Seq<char>) -> Seq<
    char,
> {
    "opening "@ + link + " with "@ + program_id + ": "@ + cause
}

/// The words for links that no browser opened. A reason that follows on itself is given once.
pub open spec fn open_failure(failures: Seq<Seq<char>>) -> Seq<char> {
    "Overbrowsered could not open the link.\n\n"@ + joined(deduplicated(failures), "\n\n"@)
}

impl Progress {
    /// The counts stay within what they count, and the current candidate, if there is one, is a
    /// browser.
    pub open spec fn valid(self) -> bool {
        &&& 0 <= self.tried <= self.candidates.len()
        &&& 0 <= self.opened <= self.links.len()
        &&& self.tried < self.candidates.len() ==> self.candidates[self.tried] is Ok
    }

    /// Passes over the candidates that are no browsers, and takes note of the reasons.
    pub open spec fn settled(self) -> Progress
        decreases self.candidates.len() - self.tried,
    {
        if 0 <= self.tried < self.candidates.len() {
            match self.candidates[self.tried] {
                Ok(_) => self,
                Err(reason) => (Progress {
                    tried: self.tried + 1,
                    failures: self.failures.push(reason),
                    ..self
                }).settled(),
            }
        } else {
            self
        }
    }

    /// What comes next: the next link for the current candidate. With no link left, it is
    /// remembered, and with no candidate left, opening failed. While progress is valid, the
    /// current candidate is never a mere reason.
    pub open spec fn action(self) -> Action<Seq<char>> {
        if self.tried >= self.candidates.len() {
            Action::Fail { message: open_failure(self.failures) }
        } else {
            match self.candidates[self.tried] {
                Ok(program_id) => if self.opened < self.links.len() {
                    Action::Launch { link: self.links[self.opened], program_id }
                } else {
                    Action::Save { program_id }
                },
                Err(reason) => Action::Fail { message: reason },
            }
        }
    }

    /// How it goes on after a link was to be opened, where `cause` is why it did not open. A
    /// candidate that cannot open a link has failed, and the next one starts with the first link.
    pub open spec fn after(self, cause: Option<Seq<char>>) -> Progress {
        match self.action() {
            Action::Launch { link, program_id } => match cause {
                None => Progress { opened: self.opened + 1, ..self },
                Some(cause) => (Progress {
                    tried: self.tried + 1,
                    opened: 0,
                    failures: self.failures.push(launch_failure(link, program_id, cause)),
                    ..self
                }).settled(),
            },
            _ => self,
        }
    }
}

/// Passing over candidates stops at a browser or at the end, and changes nothing but the counts
/// and the reasons.
pub proof fn lemma_settled(progress: Progress)
    requires
        0 <= progress.tried <= progress.candidates.len(),
        0 <= progress.opened <= progress.links.len(),
    ensures
        progress.settled().valid(),
        progress.settled().links == progress.links,
        progress.settled().candidates == progress.candidates,
        progress.settled().opened == progress.opened,
        progress.settled().tried >= progress.tried,
    decreases progress.candidates.len() - progress.tried,
{
    if progress.tried < progress.candidates.len() {
        if let Err(reason) = progress.candidates[progress.tried] {
            lemma_settled(
                Progress {
                    tried: progress.tried + 1,
                    failures: progress.failures.push(reason),
                    ..progress
                },
            );
        }
    }
}

/// The browsers to try: the one of the topmost window, then the one that is remembered.
pub open spec fn candidates_of(
    topmost: Result<Option<Seq<char>>, Seq<char>>,
    remembered: Option<Seq<char>>,
) -> Seq<Result<Seq<char>, Seq<char>>> {
    seq![
        match topmost {
            Ok(Some(id)) => Ok(id),
            Ok(None) => Err(NO_BROWSER_WINDOW@),
            Err(reason) => Err(reason),
        },
        match remembered {
            Some(id) => Ok(id),
            None => Err(NO_BROWSER_ADVICE@),
        },
    ]
}

/// How the opening of links starts.
pub open spec fn started(
    links: Seq<Seq<char>>,
    topmost: Result<Option<Seq<char>>, Seq<char>>,
    remembered: Option<Seq<char>>,
) -> Progress {
    (Progress {
        links,
        candidates: candidates_of(topmost, remembered),
        tried: 0,
        opened: 0,
        failures: seq![],
    }).settled()
}

/// The characters of the id of the topmost browser, or of the reason why it is not known.
pub open spec fn topmost_view(topmost: Result<Option<String>, String>) -> Result<
    Option<Seq<char>>,
    Seq<char>,
> {
    match topmost {
        Ok(id) => Ok(view_of(id)),
        Err(reason) => Err(reason@),
    }
}

/// Starts to open `links`. `topmost` is the id of the browser of the topmost window, if there is
/// one, or the reason why the windows are not known.
pub fn open(
    links: Vec<String>,
    topmost: Result<Option<String>, String>,
    remembered: Option<String>,
) -> (opening: Opening)
    ensures
        opening@ == started(views(links@), topmost_view(topmost), view_of(remembered)),
        opening@.valid(),
{
    let mut candidates: Vec<Result<String, String>> = Vec::new();
    candidates.push(
        match topmost {
            Ok(Some(id)) => Ok(id),
            Ok(None) => Err(NO_BROWSER_WINDOW.to_owned()),
            Err(reason) => Err(reason),
        },
    );
    candidates.push(
        match remembered {
            Some(id) => Ok(id),
            None => Err(NO_BROWSER_ADVICE.to_owned()),
        },
    );
    let mut opening: Opening = Opening {
        links,
        candidates,
        tried: 0,
        opened: 0,
        failures: Vec::new(),
    };
    proof {
        assert(opening@ =~= (Progress {
            links: views(links@),
            candidates: candidates_of(topmost_view(topmost), view_of(remembered)),
            tried: 0,
            opened: 0,
            failures: seq![],
        }));
    }
    opening.settle();
    opening
}

impl Opening {
    /// Passes over the candidates that are no browsers, and takes note of the reasons.
    fn settle(&mut self)
        requires
            old(self)@.tried <= old(self)@.candidates.len(),
            old(self)@.opened <= old(self)@.links.len(),
        ensures
            final(self)@ == old(self)@.settled(),
            final(self)@.valid(),
    {
        while self.tried < self.candidates.len()
            invariant
                self.tried <= self.candidates@.len(),
                self@.settled() == old(self)@.settled(),
                old(self)@.tried <= old(self)@.candidates.len(),
                old(self)@.opened <= old(self)@.links.len(),
            ensures
                self@ == old(self)@.settled(),
            decreases self.candidates@.len() - self.tried,
        {
            let ghost before = self@;
            assert(before.candidates[before.tried] == candidate_view(
                self.candidates@[self.tried as int],
            ));
            let reason: String = match &self.candidates[self.tried] {
                Ok(_) => {
                    break ;
                },
                Err(reason) => reason.clone(),
            };
            self.failures.push(reason);
            self.tried = self.tried + 1;
            assert(self@ =~= (Progress {
                tried: before.tried + 1,
                failures: before.failures.push(reason@),
                ..before
            }));
        }
        proof {
            lemma_settled(old(self)@);
        }
    }

    /// What comes next.
    pub fn action(&self) -> (action: Action)
        ensures
            action@ == self@.action(),
    {
        if self.tried >= self.candidates.len() {
            let failures: Vec<String> = dedup(&self.failures);
            return Action::Fail {
                message: "Overbrowsered could not open the link.\n\n".to_owned().concat(
                    join(&failures, "\n\n").as_str(),
                ),
            };
        }
        assert(self@.candidates[self@.tried] == candidate_view(self.candidates@[self.tried as int]));
        match &self.candidates[self.tried] {
            Ok(id) => if self.opened < self.links.len() {
                assert(self@.links[self@.opened] == self.links@[self.opened as int]@);
                Action::Launch { link: self.links[self.opened].clone(), program_id: id.clone() }
            } else {
                Action::Save { program_id: id.clone() }
            },
            Err(reason) => Action::Fail { message: reason.clone() },
        }
    }

    /// Takes note of how the opening of a link went: `cause` is why it did not open.
    pub fn launched(&mut self, cause: Option<String>)
        ensures
            final(self)@ == old(self)@.after(view_of(cause)),
            old(self)@.valid() ==> final(self)@.valid(),
    {
        let ghost before = self@;
        assert(before.links.len() == self.links.len());
        assert(before.candidates.len() == self.candidates.len());
        match self.action() {
            Action::Launch { link, program_id } => match cause {
                None => {
                    self.opened = self.opened + 1;
                    assert(self@ =~= (Progress { opened: before.opened + 1, ..before }));
                },
                Some(cause) => {
                    let failure: String = "opening ".to_owned().concat(link.as_str()).concat(
                        " with ",
                    ).concat(program_id.as_str()).concat(": ").concat(cause.as_str());
                    self.failures.push(failure);
                    self.tried = self.tried + 1;
                    self.opened = 0;
                    assert(self@ =~= (Progress {
                        tried: before.tried + 1,
                        opened: 0,
                        failures: before.failures.push(launch_failure(link@, program_id@, cause@)),
                        ..before
                    }));
                    self.settle();
                },
            },
            _ => {},
        }
    }
}

} // verus!
