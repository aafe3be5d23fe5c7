//! Extraction of snippets from source files: the body of a function, or an
//! interval of lines, cleaned of comment lines and of common indentation,
//! and stored as a bookmark under an identifier that its content gives it.
//!
//! This crate reads no file. A caller hands the lines of the source to a
//! [`Capture`], and keeps the [`bookmark::Store`] wherever it likes.

pub mod bookmark;
pub mod error;
pub mod extract;
pub mod interval;
pub mod language;
pub mod locate;
pub mod rules;
pub mod text;
pub mod utils;

use crate::bookmark::{has_id, has_name, Record, Store};
use crate::error::CaptureError;
use crate::extract::snippet;
use crate::interval::{check_interval, valid_interval};
use crate::language::Language;
use crate::locate::{declarations, locate};
use crate::rules::{follows_dot, plain_name, text_after_last, Rule};
use crate::utils::content_id;
use vstd::prelude::*;
use vstd::string::*;

verus! {

/// One extraction from one source file. A session produces at most one
/// snippet: once `result` holds lines, every further extraction fails.
#[derive(Clone, Debug)]
pub struct Capture {
    /// The rule of the source file.
    pub rule: Rule,
    /// The path of the source file.
    pub path_str: String,
    /// The snippet, once it has been produced.
    pub result: Vec<String>,
}

impl Capture {
    /// A session that has produced nothing yet, for the file at `path` with
    /// the rule `rule`.
    pub open spec fn fresh(&self, rule: Rule, path: Seq<char>) -> bool {
        &&& self.rule == rule
        &&& self.path_str@ == path
        &&& self.result@.len() == 0
    }

    /// The session differs from `before` in its result at most.
    pub open spec fn same_source(&self, before: &Capture) -> bool {
        self.rule == before.rule && self.path_str == before.path_str
    }

    /// Starts a session with a rule that was resolved elsewhere; fails with
    /// `ConfigurationError` where there is none.
    pub fn with_rule(rule: Option<Rule>, path: &str) -> (r: Result<Capture, CaptureError>)
        ensures
            match r {
                Ok(session) => rule matches Some(given) && session.fresh(given, path@),
                Err(e) => e == CaptureError::ConfigurationError && rule is None,
            },
    {
        match rule {
            Some(rule) => Ok(Capture { rule, path_str: String::from_str(path), result: Vec::new() }),
            None => Err(CaptureError::ConfigurationError),
        }
    }

    /// Starts a session for the file at `path`; fails with
    /// `ConfigurationError` where the path has no extension.
    ///
    /// The extension is read by the standard library. For a path that is a
    /// single plain file name the outcome is stated exactly; for any other
    /// path, only that the extension stands in the path behind a dot.
    pub fn new(path: &str) -> (r: Result<Capture, CaptureError>)
        ensures
            plain_name(path@) ==> match text_after_last(path@, '.') {
                Some(e) => r matches Ok(session) && session.fresh(
                    Rule::of(Language::resolve(e)),
                    path@,
                ),
                None => r == Err::<Capture, CaptureError>(CaptureError::ConfigurationError),
            },
            match r {
                Ok(session) => exists|e: Seq<char>|
                    #[trigger] follows_dot(path@, e) && !e.contains('.') && session.fresh(
                        Rule::of(Language::resolve(e)),
                        path@,
                    ),
                Err(e) => e == CaptureError::ConfigurationError,
            },
            !path@.contains('.') ==> r is Err,
    {
        Capture::with_rule(Rule::new(path), path)
    }

    /// Extracts the function `name` from `lines`, the lines of the source
    /// file: the interval that the locator finds, as a snippet.
    ///
    /// Fails with `AlreadyProduced` where the session holds a snippet, and
    /// with `NotFound` where the locator finds no interval. A failed call
    /// leaves the session as it was.
    pub fn from_function(&mut self, lines: &Vec<String>, name: &String, include_comments: bool) -> (r:
        Result<(), CaptureError>)
        ensures
            final(self).same_source(old(self)),
            old(self).result@.len() > 0 ==> r == Err::<(), CaptureError>(
                CaptureError::AlreadyProduced,
            ) && final(self).result == old(self).result,
            old(self).result@.len() == 0 ==> match locate(
                lines.deep_view(),
                declarations(old(self).rule.language, lines.deep_view(), name@),
                old(self).rule.delimiter,
            ) {
                Some((start, end)) => r == Ok::<(), CaptureError>(())
                    && final(self).result.deep_view() == snippet(
                    old(self).rule.language,
                    lines.deep_view(),
                    start,
                    end,
                    include_comments,
                ),
                None => r == Err::<(), CaptureError>(CaptureError::NotFound) && final(self).result
                    == old(self).result,
            },
    {
        if self.result.len() > 0 {
            return Err(CaptureError::AlreadyProduced);
        }
        match self.rule.locate_function(lines, name) {
            Some((start, end)) => {
                self.result = crate::extract::extract(
                    &self.rule,
                    lines,
                    start,
                    end,
                    include_comments,
                );
                Ok(())
            },
            None => Err(CaptureError::NotFound),
        }
    }

    /// Extracts the lines `start` to `end` of `lines`, the lines of the
    /// source file, as a snippet. Lines are counted from 1 and both ends
    /// are included; an interval that reaches beyond the last line ends
    /// with it.
    ///
    /// Fails with `AlreadyProduced` where the session holds a snippet, and
    /// otherwise with `InvalidInput` where `start` is 0 or `end` is less
    /// than `start`. A failed call leaves the session as it was.
    pub fn from_interval(
        &mut self,
        lines: &Vec<String>,
        start: usize,
        end: usize,
        include_comments: bool,
    ) -> (r: Result<(), CaptureError>)
        ensures
            final(self).same_source(old(self)),
            old(self).result@.len() > 0 ==> r == Err::<(), CaptureError>(
                CaptureError::AlreadyProduced,
            ) && final(self).result == old(self).result,
            old(self).result@.len() == 0 && !valid_interval(start as int, end as int) ==> r
                == Err::<(), CaptureError>(CaptureError::InvalidInput) && final(self).result == old(
                self,
            ).result,
            old(self).result@.len() == 0 && valid_interval(start as int, end as int) ==> r == Ok::<
                (),
                CaptureError,
            >(()) && final(self).result.deep_view() == snippet(
                old(self).rule.language,
                lines.deep_view(),
                start as int,
                end as int,
                include_comments,
            ),
    {
        if self.result.len() > 0 {
            return Err(CaptureError::AlreadyProduced);
        }
        match check_interval(start, end) {
            Ok(()) => {
                self.result = crate::extract::extract(
                    &self.rule,
                    lines,
                    start,
                    end,
                    include_comments,
                );
                Ok(())
            },
            Err(e) => Err(e),
        }
    }

    /// Stores the snippet of the session in `store` under `name`, with the
    /// language of the source file.
    ///
    /// Fails with `AlreadyExists`, and leaves the store as it was, where
    /// the name is taken or a bookmark with the same content is stored.
    pub fn bookmark(&self, store: &mut Store, name: &String) -> (r: Result<(), CaptureError>)
        ensures
            match r {
                Ok(()) => {
                    &&& !has_name(old(store)@, name@)
                    &&& !has_id(old(store)@, content_id(self.result.deep_view()))
                    &&& final(store)@ == old(store)@.push(
                        Record {
                            id: content_id(self.result.deep_view()),
                            name: name@,
                            lang: self.rule.language,
                            content: self.result.deep_view(),
                        },
                    )
                },
                Err(e) => {
                    &&& e == CaptureError::AlreadyExists
                    &&& has_name(old(store)@, name@) || has_id(
                        old(store)@,
                        content_id(self.result.deep_view()),
                    )
                    &&& final(store)@ == old(store)@
                },
            },
    {
        crate::bookmark::create(store, name, &self.result, &self.rule.language)
    }
}

} // verus!
