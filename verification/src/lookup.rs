//! The lookup of one file, step by step.
//!
//! A lookup reads the file's two windows, logs in, searches, downloads the
//! first match and writes the subtitle that it holds. Each of these is work
//! for the caller. A `Lookup` says which work comes next, takes what came of
//! it, and ends with the first failure or with the subtitle written. Nothing
//! is written before the subtitle has been unpacked.

use vstd::prelude::*;
use vstd::string::*;
use crate::archive::{download_to_srt, locate, zip_entry_content, Located};
use crate::client::{
    login_params, read_login, read_search, search_params, LoginReading, OpenSubtitlesClient,
    SearchReading,
};
use crate::error::SubError;
use crate::fingerprint::{fingerprint_text, HASH_BLK_SIZE};
use crate::names::subtitle_name;
use crate::pool::Outcome;
use crate::rpc::{call_xml, ParamModel, RpcCall, RpcValue};
use crate::show::Show;

verus! {

/// Who asks, for which language, and in whose name.
#[derive(Debug)]
pub struct UserParams {
    pub username: String,
    pub password: String,
    pub language: String,
    pub useragent: String,
}

/// How far a lookup has come.
#[derive(Debug)]
pub enum Stage {
    /// The file's windows are being read.
    Hashing,
    /// The `LogIn` call is on its way.
    LoggingIn,
    /// The `SearchSubtitles` call of this session is on its way.
    Searching(OpenSubtitlesClient),
    /// The archive of the first match is being downloaded.
    Downloading,
    /// The subtitle is being written.
    Writing,
    /// The lookup is over.
    Finished,
}

/// What the caller is to do next.
#[derive(Debug)]
pub enum Action {
    /// Read 65536 bytes of the file at `path` from its start, and 65536 bytes
    /// from `tail_offset`.
    ReadWindows { path: String, tail_offset: u64 },
    /// Send `body`, which is `call` as an XML document, to the catalog and
    /// parse the reply.
    Call { call: RpcCall, body: Vec<u8> },
    /// Download what is at this address.
    Download(String),
    /// Write `data` to the file `name`, in place of anything it holds.
    Write { name: String, data: Vec<u8> },
    /// Nothing more: the lookup has ended in this way.
    Done(Outcome),
    /// The event fits no work that was asked for. Nothing has changed.
    Ignored,
}

/// What came of the work.
#[derive(Debug)]
pub enum Event {
    /// The two windows were read.
    Windows { head: Vec<u8>, tail: Vec<u8> },
    /// The catalog replied.
    Reply(RpcValue),
    /// The download arrived.
    Body(Vec<u8>),
    /// The file was written.
    Written,
    /// The work failed.
    Failed(SubError),
}

/// The lookup of one file.
#[derive(Debug)]
pub struct Lookup {
    show: Show,
    stage: Stage,
}

/// Whether `action` is the call of `method` with `params`, with its document.
pub open spec fn is_call(action: Action, method: Seq<char>, params: Seq<ParamModel>) -> bool {
    action matches Action::Call { call, body } && call@.method == method && call@.params == params
        && body@ == call_xml(method, params)
}

fn call_action(call: RpcCall) -> (action: Action)
    ensures
        is_call(action, call@.method, call@.params),
{
    let body = call.to_xml();
    Action::Call { call, body }
}

impl Lookup {
    /// The file that is looked up.
    pub closed spec fn show(&self) -> Show {
        self.show
    }

    /// How far the lookup has come.
    pub closed spec fn stage(&self) -> Stage {
        self.stage
    }

    /// Begins the lookup of `show`: its windows are to be read.
    pub fn start(show: Show) -> (started: (Lookup, Action))
        ensures
            started.0.show() == show,
            started.0.stage() is Hashing,
            started.1 matches Action::ReadWindows { path, tail_offset } && path@ == show.path()
                && tail_offset == show.size() - HASH_BLK_SIZE,
    {
        let path = show.full_path().clone();
        let tail_offset = show.tail_offset();
        (Lookup { show, stage: Stage::Hashing }, Action::ReadWindows { path, tail_offset })
    }

    /// The file that is looked up.
    pub fn file(&self) -> (show: &Show)
        ensures
            *show == self.show(),
    {
        &self.show
    }

    /// Whether the lookup is over.
    pub fn is_finished(&self) -> (over: bool)
        ensures
            over == (self.stage() is Finished),
    {
        match self.stage {
            Stage::Finished => true,
            _ => false,
        }
    }

    fn fail(&mut self, error: SubError) -> (action: Action)
        ensures
            final(self).show() == old(self).show(),
            final(self).stage() is Finished,
            action == Action::Done(Err(error)),
    {
        self.stage = Stage::Finished;
        Action::Done(Err(error))
    }

    fn hashed(&mut self, head: Vec<u8>, tail: Vec<u8>, params: &UserParams) -> (action: Action)
        requires
            old(self).stage() is Hashing,
        ensures
            after_windows(*old(self), head@, tail@, *params, *final(self), action),
    {
        match self.show.create_hash(head.as_slice(), tail.as_slice()) {
            Ok(()) => {
                self.stage = Stage::LoggingIn;
                call_action(
                    OpenSubtitlesClient::login_call(
                        params.username.as_str(),
                        params.password.as_str(),
                        params.language.as_str(),
                        params.useragent.as_str(),
                    ),
                )
            },
            Err(error) => self.fail(error),
        }
    }

    fn logged_in(&mut self, reply: RpcValue, params: &UserParams) -> (action: Action)
        requires
            old(self).stage() is LoggingIn,
        ensures
            after_login(*old(self), reply, *params, *final(self), action),
    {
        match OpenSubtitlesClient::create_client(&reply) {
            Ok(client) => {
                let call = client.search_call(
                    self.show.hash().as_str(),
                    self.show.file_size(),
                    params.language.as_str(),
                );
                self.stage = Stage::Searching(client);
                call_action(call)
            },
            Err(error) => self.fail(error),
        }
    }

    fn searched(&mut self, reply: RpcValue) -> (action: Action)
        requires
            old(self).stage() is Searching,
        ensures
            after_search(*old(self), reply, *final(self), action),
    {
        let found = match &self.stage {
            Stage::Searching(client) => client.search_subtitles(&reply),
            _ => Err(SubError::SvrInvalidResponse),
        };
        match found {
            Ok(subs) => {
                let link = subs[0].ZipDownloadLink.clone();
                self.stage = Stage::Downloading;
                Action::Download(link)
            },
            Err(error) => self.fail(error),
        }
    }

    fn downloaded(&mut self, data: Vec<u8>) -> (action: Action)
        requires
            old(self).stage() is Downloading,
        ensures
            after_download(*old(self), data@, *final(self), action),
    {
        match download_to_srt(data) {
            Ok(payload) => {
                let name = self.show.srt_name();
                self.stage = Stage::Writing;
                Action::Write { name, data: payload }
            },
            Err(error) => self.fail(error),
        }
    }

    /// Takes what came of the work that was asked for last, and says what is
    /// to be done next.
    ///
    /// A failure of the work ends the lookup with that failure. So does a
    /// window of the wrong length, a reply that is malformed or reports no
    /// success, a search without a match, and an archive that cannot be read
    /// or holds no subtitle. An event that does not answer the work that was
    /// asked for is ignored, as is every event after the end.
    pub fn step(&mut self, event: Event, params: &UserParams) -> (action: Action)
        ensures
            match (old(self).stage(), event) {
                (Stage::Finished, _) => action is Ignored && *final(self) == *old(self),
                (_, Event::Failed(error)) => final(self).stage() is Finished && final(self).show()
                    == old(self).show() && action == Action::Done(Err(error)),
                (Stage::Hashing, Event::Windows { head, tail }) => after_windows(
                    *old(self),
                    head@,
                    tail@,
                    *params,
                    *final(self),
                    action,
                ),
                (Stage::LoggingIn, Event::Reply(reply)) => after_login(
                    *old(self),
                    reply,
                    *params,
                    *final(self),
                    action,
                ),
                (Stage::Searching(_), Event::Reply(reply)) => after_search(
                    *old(self),
                    reply,
                    *final(self),
                    action,
                ),
                (Stage::Downloading, Event::Body(data)) => after_download(
                    *old(self),
                    data@,
                    *final(self),
                    action,
                ),
                (Stage::Writing, Event::Written) => final(self).stage() is Finished && final(self).show() == old(self).show() && action == Action::Done(Ok(())),
                _ => action is Ignored && *final(self) == *old(self),
            },
    {
        if self.is_finished() {
            return Action::Ignored;
        }
        match event {
            Event::Failed(error) => self.fail(error),
            Event::Windows { head, tail } => match self.stage {
                Stage::Hashing => self.hashed(head, tail, params),
                _ => Action::Ignored,
            },
            Event::Reply(reply) => match self.stage {
                Stage::LoggingIn => self.logged_in(reply, params),
                Stage::Searching(_) => self.searched(reply),
                _ => Action::Ignored,
            },
            Event::Body(data) => match self.stage {
                Stage::Downloading => self.downloaded(data),
                _ => Action::Ignored,
            },
            Event::Written => match self.stage {
                Stage::Writing => {
                    self.stage = Stage::Finished;
                    Action::Done(Ok(()))
                },
                _ => Action::Ignored,
            },
        }
    }
}

/// Whether `after` and `action` are what follows `before` when its file's
/// windows have been read as `head` and `tail`.
///
/// Two windows of 64 KiB give the file its fingerprint and lead to the
/// `LogIn` call with the user's parameters. Any other length ends the lookup
/// as a failed read.
pub open spec fn after_windows(
    before: Lookup,
    head: Seq<u8>,
    tail: Seq<u8>,
    params: UserParams,
    after: Lookup,
    action: Action,
) -> bool {
    &&& after.show().path() == before.show().path()
    &&& after.show().name() == before.show().name()
    &&& after.show().size() == before.show().size()
    &&& if head.len() == HASH_BLK_SIZE && tail.len() == HASH_BLK_SIZE {
        &&& after.stage() is LoggingIn
        &&& after.show().hash_text() == fingerprint_text(before.show().size(), head, tail)
        &&& is_call(
            action,
            "LogIn"@,
            login_params(
                params.username@,
                params.password@,
                params.language@,
                params.useragent@,
            ),
        )
    } else {
        &&& after.stage() is Finished
        &&& after.show().hash_text() == before.show().hash_text()
        &&& action matches Action::Done(Err(SubError::Io(_)))
    }
}

/// Whether `after` and `action` are what follows `before` when the catalog
/// has answered the `LogIn` call with `reply`.
///
/// A successful login leads to the `SearchSubtitles` call with the reply's
/// token, the file's fingerprint and size, and the user's language. A
/// malformed reply and a rejected login end the lookup.
pub open spec fn after_login(
    before: Lookup,
    reply: RpcValue,
    params: UserParams,
    after: Lookup,
    action: Action,
) -> bool {
    &&& after.show() == before.show()
    &&& match read_login(reply) {
        LoginReading::Token(token) => {
            &&& after.stage() matches Stage::Searching(client) && client.token_text() == token
            &&& is_call(
                action,
                "SearchSubtitles"@,
                search_params(
                    token,
                    before.show().hash_text(),
                    before.show().size(),
                    params.language@,
                ),
            )
        },
        LoginReading::Rejected => after.stage() is Finished && action matches Action::Done(
            Err(SubError::SvrInvalidCredentials),
        ),
        LoginReading::Malformed => after.stage() is Finished && action matches Action::Done(
            Err(SubError::SvrInvalidResponse),
        ),
    }
}

/// Whether `after` and `action` are what follows `before` when the catalog
/// has answered the `SearchSubtitles` call with `reply`.
///
/// The first match, in the catalog's order, is the one to download. A
/// malformed reply and a search without a match end the lookup.
pub open spec fn after_search(before: Lookup, reply: RpcValue, after: Lookup, action: Action) -> bool {
    &&& after.show() == before.show()
    &&& match read_search(reply) {
        SearchReading::Matches(found) => {
            &&& after.stage() is Downloading
            &&& action matches Action::Download(link) && link@ == found[0].1
        },
        SearchReading::NoResults => after.stage() is Finished && action matches Action::Done(
            Err(SubError::SvrNoSubtitlesFound),
        ),
        SearchReading::Malformed => after.stage() is Finished && action matches Action::Done(
            Err(SubError::SvrInvalidResponse),
        ),
    }
}

/// Whether `after` and `action` are what follows `before` when the download
/// has arrived as `data`.
///
/// The first subtitle of the archive is to be written under the file's name
/// with the extension `srt`. An archive that cannot be read or holds no
/// subtitle ends the lookup, and nothing is to be written.
pub open spec fn after_download(before: Lookup, data: Seq<u8>, after: Lookup, action: Action) -> bool {
    &&& after.show() == before.show()
    &&& match locate(data) {
        Located::Unreadable => after.stage() is Finished && action matches Action::Done(
            Err(SubError::Zip(_)),
        ),
        Located::BrokenEntry(_) => after.stage() is Finished && action matches Action::Done(
            Err(SubError::Zip(_)),
        ),
        Located::NoSubtitle => after.stage() is Finished && action matches Action::Done(
            Err(SubError::ZipEmpty),
        ),
        Located::Subtitle(index) => match zip_entry_content(data, index) {
            Some(bytes) => {
                &&& after.stage() is Writing
                &&& action matches Action::Write { name, data } && name@ == subtitle_name(
                    before.show().name(),
                ) && data@ == bytes
            },
            None => after.stage() is Finished && action matches Action::Done(
                Err(SubError::Io(_)),
            ),
        },
    }
}

} // verus!
