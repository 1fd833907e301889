use crate::http::text_of;
use vstd::prelude::*;

verus! {

/// The counters and fixed inputs of one benchmark run, as mathematics.
pub struct CtxView {
    pub successful: nat,
    pub unsuccessful: nat,
    pub failed: nat,
    pub sent: nat,
    pub payload: Seq<u8>,
    pub concurrency: nat,
    pub server_name: Option<Seq<char>>,
    pub doclen: Option<nat>,
    pub max_requests: nat,
    pub next_token: nat,
}

impl CtxView {
    /// The responses classified so far.
    pub open spec fn total(self) -> nat {
        self.failed + self.successful + self.unsuccessful
    }

    /// Neither the responses classified nor the requests sent exceed the
    /// number of requests asked for.
    pub open spec fn wf(self) -> bool {
        &&& self.total() <= self.max_requests
        &&& self.sent <= self.max_requests
    }

    /// The run after a response read with success told `server` and
    /// `doclen`: they are kept where it is the first to do so.
    pub open spec fn identified(self, server: Option<Seq<char>>, doclen: nat) -> CtxView {
        if self.server_name is None {
            CtxView {
                server_name: Some(
                    match server {
                        Some(name) => name,
                        None => Seq::empty(),
                    },
                ),
                doclen: Some(doclen),
                ..self
            }
        } else {
            self
        }
    }

    /// The run as it begins.
    pub open spec fn initial(payload: Seq<u8>, max_requests: nat, concurrency: nat) -> CtxView {
        CtxView {
            successful: 0,
            unsuccessful: 0,
            failed: 0,
            sent: 0,
            payload,
            concurrency,
            server_name: None,
            doclen: None,
            max_requests,
            next_token: 0,
        }
    }
}

/// The single owner of a run's counters, its request payload, its stopping
/// threshold and its allocator of connection identifiers.
pub struct Ctx {
    pub successful_responses: usize,
    pub unsuccessful_responses: usize,
    pub failed_responses: usize,
    pub sent_requests: usize,
    pub payload: Vec<u8>,
    pub concurrency: usize,
    pub server_name: Option<String>,
    pub doclen: Option<usize>,
    max_requests: usize,
    token: usize,
}

impl View for Ctx {
    type V = CtxView;

    closed spec fn view(&self) -> CtxView {
        CtxView {
            successful: self.successful_responses as nat,
            unsuccessful: self.unsuccessful_responses as nat,
            failed: self.failed_responses as nat,
            sent: self.sent_requests as nat,
            payload: self.payload@,
            concurrency: self.concurrency as nat,
            server_name: match self.server_name {
                Some(name) => Some(name@),
                None => None,
            },
            doclen: match self.doclen {
                Some(len) => Some(len as nat),
                None => None,
            },
            max_requests: self.max_requests as nat,
            next_token: self.token as nat,
        }
    }
}

impl Ctx {
    /// See [`CtxView::wf`].
    pub open spec fn wf(&self) -> bool {
        self@.wf()
    }

    /// A run that has sent and counted nothing yet.
    pub fn new(payload: Vec<u8>, max_requests: usize, concurrency: usize) -> (ctx: Ctx)
        ensures
            ctx.wf(),
            ctx@ == CtxView::initial(payload@, max_requests as nat, concurrency as nat),
    {
        Ctx {
            token: 0,
            sent_requests: 0,
            successful_responses: 0,
            unsuccessful_responses: 0,
            failed_responses: 0,
            server_name: None,
            doclen: None,
            max_requests,
            concurrency,
            payload,
        }
    }

    /// The stopping threshold of the run.
    pub fn max_requests(&self) -> (max: usize)
        ensures
            max == self@.max_requests,
    {
        self.max_requests
    }

    /// The number of connections that the run keeps open at a time.
    pub fn concurrency(&self) -> (concurrency: usize)
        ensures
            concurrency == self@.concurrency,
    {
        self.concurrency
    }

    /// The responses with a status code from 200 to 299.
    pub fn successful_responses(&self) -> (n: usize)
        ensures
            n == self@.successful,
    {
        self.successful_responses
    }

    /// The responses with any other status code.
    pub fn unsuccessful_responses(&self) -> (n: usize)
        ensures
            n == self@.unsuccessful,
    {
        self.unsuccessful_responses
    }

    /// The responses that carried no status code.
    pub fn failed_responses(&self) -> (n: usize)
        ensures
            n == self@.failed,
    {
        self.failed_responses
    }

    /// The requests written so far.
    pub fn sent_requests(&self) -> (n: usize)
        ensures
            n == self@.sent,
    {
        self.sent_requests
    }

    /// The server's name as the first response read with success told it.
    pub fn server_name(&self) -> (name: Option<String>)
        ensures
            text_of(name) == self@.server_name,
    {
        match &self.server_name {
            Some(name) => Some(name.clone()),
            None => None,
        }
    }

    /// The length of the first read of the first response read with
    /// success.
    pub fn doclen(&self) -> (doclen: Option<usize>)
        ensures
            match doclen {
                Some(len) => self@.doclen == Some(len as nat),
                None => self@.doclen is None,
            },
    {
        self.doclen
    }

    /// The bytes sent verbatim as every request.
    pub fn payload(&self) -> (payload: &Vec<u8>)
        ensures
            payload@ == self@.payload,
    {
        &self.payload
    }

    /// The counters fit in a machine word each.
    pub proof fn lemma_counters_fit(&self)
        ensures
            self@.successful <= usize::MAX,
            self@.unsuccessful <= usize::MAX,
            self@.failed <= usize::MAX,
            self@.sent <= usize::MAX,
            self@.max_requests <= usize::MAX,
            self@.payload.len() <= usize::MAX,
    {
        let _ = self.payload.len();
    }

    /// Whether the counters are within the number of requests asked for.
    pub fn is_valid(&self) -> (valid: bool)
        ensures
            valid == self.wf(),
    {
        let max = self.max_requests;
        self.sent_requests <= max && self.failed_responses <= max && self.successful_responses
            <= max - self.failed_responses && self.unsuccessful_responses <= max
            - self.failed_responses - self.successful_responses
    }

    /// The responses classified so far.
    pub fn total_responses(&self) -> (total: usize)
        requires
            self.wf(),
        ensures
            total == self@.total(),
    {
        self.failed_responses + self.successful_responses + self.unsuccessful_responses
    }

    /// Whether the run goes on: fewer responses were classified than
    /// requests were asked for.
    pub fn expect_more_responses(&self) -> (more: bool)
        requires
            self.wf(),
        ensures
            more == (self@.total() < self@.max_requests),
    {
        self.total_responses() < self.max_requests
    }

    /// Counts a response with a status code from 200 to 299.
    pub fn successful_response(&mut self)
        requires
            old(self).wf(),
            old(self)@.total() < old(self)@.max_requests,
        ensures
            final(self).wf(),
            final(self)@ == (CtxView { successful: old(self)@.successful + 1, ..old(self)@ }),
    {
        self.successful_responses += 1;
    }

    /// Counts a response with any other status code.
    pub fn unsuccessful_response(&mut self)
        requires
            old(self).wf(),
            old(self)@.total() < old(self)@.max_requests,
        ensures
            final(self).wf(),
            final(self)@ == (CtxView { unsuccessful: old(self)@.unsuccessful + 1, ..old(self)@ }),
    {
        self.unsuccessful_responses += 1;
    }

    /// Counts a response that carried no status code.
    pub fn failed_response(&mut self)
        requires
            old(self).wf(),
            old(self)@.total() < old(self)@.max_requests,
        ensures
            final(self).wf(),
            final(self)@ == (CtxView { failed: old(self)@.failed + 1, ..old(self)@ }),
    {
        self.failed_responses += 1;
    }

    /// Whether an identifier is left to hand out.
    pub fn has_token(&self) -> (left: bool)
        ensures
            left == (self@.next_token < usize::MAX),
    {
        self.token < usize::MAX
    }

    /// Hands out the next connection identifier. Identifiers ascend from
    /// zero and none is handed out twice.
    pub fn next_token(&mut self) -> (token: usize)
        requires
            old(self)@.next_token < usize::MAX,
        ensures
            token == old(self)@.next_token,
            final(self)@ == (CtxView { next_token: old(self)@.next_token + 1, ..old(self)@ }),
    {
        let next = self.token;
        self.token += 1;
        next
    }

    /// Counts a request that was written in full.
    pub fn request_sent(&mut self)
        requires
            old(self).wf(),
            old(self)@.sent < old(self)@.max_requests,
        ensures
            final(self).wf(),
            final(self)@ == (CtxView { sent: old(self)@.sent + 1, ..old(self)@ }),
    {
        self.sent_requests += 1;
    }

    /// Whether no response has been read with success yet, so that the next
    /// one tells the server's name and the document's length.
    pub fn first_response(&self) -> (first: bool)
        ensures
            first == (self@.server_name is None),
    {
        self.server_name.is_none()
    }

    /// Stores what the first response read with success told: the server's
    /// name, empty where the response named none, and the length of the
    /// first read as the document's length. Once stored they stay.
    pub fn identify_server(&mut self, server: Option<String>, doclen: usize)
        ensures
            final(self).wf() == old(self).wf(),
            final(self)@ == old(self)@.identified(text_of(server), doclen as nat),
    {
        if self.server_name.is_none() {
            self.server_name = Some(
                match server {
                    Some(name) => name,
                    None => String::new(),
                },
            );
            self.doclen = Some(doclen);
        }
    }

    /// Whether another request may be written: fewer were sent than were
    /// asked for.
    pub fn send_more(&self) -> (more: bool)
        ensures
            more == (self@.sent < self@.max_requests),
    {
        self.max_requests > self.sent_requests
    }
}

} // verus!
