//! What the proxy keeps of one job provider: the latest template, the
//! latest addition to its coinbase prefix, and the requests for transaction
//! data that are still open.
use crate::connection::{ConnectionHandler, HandleError};
use crate::envelope::{signature_valid, verify};
use crate::keys::{PublicKey, Signature};
use crate::work::{
    BlockTemplate, BlockTemplateView, CoinbasePrefixPostfix, CoinbasePrefixPostfixView,
    TransactionData, TransactionDataView, WinningNonce, WorkMessage, WorkMessageView,
    WORK_BLOCK_TEMPLATE, WORK_COINBASE_PREFIX_POSTFIX, WORK_TRANSACTION_DATA,
};
use std::collections::HashMap;
use vstd::prelude::*;

verus! {

/// How many jobs may wait to be merged before a provider counts as too
/// fast.
pub const JOB_STREAM_CAPACITY: usize = 10;

/// The protocol version that the proxy speaks.
pub const PROTOCOL_VERSION: u16 = 1;

/// A template to mine on, with the addition to its coinbase prefix that was
/// current when it was issued. `ticket` names the request for the
/// template's transactions that went out with the job.
#[derive(Clone, Debug, PartialEq, Eq)]
pub struct ProviderJob {
    pub template: BlockTemplate,
    pub prefix_postfix: Option<CoinbasePrefixPostfix>,
    pub ticket: u64,
}

/// A `ProviderJob` as a mathematical value.
pub struct ProviderJobView {
    pub template: BlockTemplateView,
    pub prefix_postfix: Option<CoinbasePrefixPostfixView>,
    pub ticket: u64,
}

impl View for ProviderJob {
    type V = ProviderJobView;

    open spec fn view(&self) -> ProviderJobView {
        ProviderJobView {
            template: self.template@,
            prefix_postfix: self.prefix_postfix.deep_view(),
            ticket: self.ticket,
        }
    }
}

impl DeepView for ProviderJob {
    type V = ProviderJobView;

    open spec fn deep_view(&self) -> ProviderJobView {
        self@
    }
}

/// The transactions that answer the request named by `ticket`.
#[derive(Clone, Debug, PartialEq, Eq)]
pub struct FulfilledRequest {
    pub ticket: u64,
    pub data: TransactionData,
}

/// A `FulfilledRequest` as a mathematical value.
pub struct FulfilledRequestView {
    pub ticket: u64,
    pub data: TransactionDataView,
}

impl View for FulfilledRequest {
    type V = FulfilledRequestView;

    open spec fn view(&self) -> FulfilledRequestView {
        FulfilledRequestView { ticket: self.ticket, data: self.data@ }
    }
}

impl DeepView for FulfilledRequest {
    type V = FulfilledRequestView;

    open spec fn deep_view(&self) -> FulfilledRequestView {
        self@
    }
}

/// The state of a job provider's handler as a mathematical value.
pub struct JobProviderView {
    /// Whether any pool is configured.
    pub have_pool: bool,
    /// What waits to be sent; nothing at all while there is no connection.
    pub stream: Option<Seq<WorkMessageView>>,
    /// The key that signed messages must verify under, once it is known.
    pub auth_key: Option<Seq<u8>>,
    pub cur_template: Option<BlockTemplateView>,
    pub cur_prefix_postfix: Option<CoinbasePrefixPostfixView>,
    /// The open requests for transaction data: template id to ticket.
    pub pending_tx_data_requests: Map<u64, u64>,
    /// The jobs that wait to be merged, oldest first.
    pub job_stream: Seq<ProviderJobView>,
    /// The transaction data that came in for open requests, oldest first.
    pub fulfilled: Seq<FulfilledRequestView>,
    /// The ticket that the next job gets.
    pub next_ticket: u64,
}

/// The ticket after `ticket`; after the last one the first comes again.
pub open spec fn ticket_after(ticket: u64) -> u64 {
    if ticket == u64::MAX {
        0
    } else {
        (ticket + 1) as u64
    }
}

impl JobProviderView {
    /// Whether `signature` signs `payload` under `tag` for the key that this
    /// provider is known by. Without a key nothing verifies.
    pub open spec fn authentic(self, tag: u8, payload: Seq<u8>, signature: Seq<u8>) -> bool {
        self.auth_key matches Some(key) && signature_valid(key, tag, payload, signature)
    }

    /// Whether a job can be issued: there is a connection to request the
    /// transactions on, and room for the job.
    pub open spec fn can_issue(self) -> bool {
        self.stream is Some && self.job_stream.len() < JOB_STREAM_CAPACITY
    }

    /// The state after a job for `template` was issued: the job waits to be
    /// merged, its transactions are requested, and the request is on record
    /// in place of any earlier one for the same template.
    pub open spec fn issue(self, template: BlockTemplateView) -> JobProviderView {
        JobProviderView {
            stream: Some(
                self.stream.unwrap().push(
                    WorkMessageView::TransactionDataRequest { template_id: template.template_id },
                ),
            ),
            pending_tx_data_requests: self.pending_tx_data_requests.insert(
                template.template_id,
                self.next_ticket,
            ),
            job_stream: self.job_stream.push(
                ProviderJobView {
                    template,
                    prefix_postfix: self.cur_prefix_postfix,
                    ticket: self.next_ticket,
                },
            ),
            next_ticket: ticket_after(self.next_ticket),
            ..self
        }
    }

    /// Whether `template` is newer than the current one.
    pub open spec fn supersedes_template(self, template: BlockTemplateView) -> bool {
        self.cur_template matches Some(cur) ==> cur.template_id < template.template_id
    }

    /// Whether `postfix` is newer than the current one.
    pub open spec fn supersedes_postfix(self, postfix: CoinbasePrefixPostfixView) -> bool {
        self.cur_prefix_postfix matches Some(cur) ==> cur.timestamp < postfix.timestamp
    }

    /// The state after a connection was made: only the opening message
    /// waits to be sent.
    pub open spec fn connect(self) -> JobProviderView {
        JobProviderView {
            stream: Some(
                seq![
                    WorkMessageView::ProtocolSupport {
                        max_version: PROTOCOL_VERSION,
                        min_version: PROTOCOL_VERSION,
                        flags: if self.have_pool {
                            0u16
                        } else {
                            1u16
                        },
                    },
                ],
            ),
            ..self
        }
    }

    /// The state after the connection went away.
    pub open spec fn close(self) -> JobProviderView {
        JobProviderView { stream: None, ..self }
    }

    /// What a message does to the state, and whether it is allowed: `false`
    /// closes the connection.
    pub open spec fn handle(self, msg: WorkMessageView) -> (bool, JobProviderView) {
        match msg {
            WorkMessageView::ProtocolSupport { .. } => (false, self),
            WorkMessageView::ProtocolVersion { selected_version, auth_key } => {
                if selected_version != PROTOCOL_VERSION {
                    (false, self)
                } else {
                    match self.auth_key {
                        None => (true, JobProviderView { auth_key: Some(auth_key), ..self }),
                        Some(known) => (known == auth_key, self),
                    }
                }
            },
            WorkMessageView::BlockTemplate { signature, template } => {
                if !template.encodable() || !self.authentic(
                    WORK_BLOCK_TEMPLATE,
                    template.encoding(),
                    signature,
                ) {
                    (false, self)
                } else if !self.supersedes_template(template) {
                    (true, self)
                } else if !self.can_issue() {
                    (false, self)
                } else {
                    (
                        true,
                        JobProviderView { cur_template: Some(template), ..self.issue(template) },
                    )
                }
            },
            WorkMessageView::WinningNonce { .. } => (false, self),
            WorkMessageView::TransactionDataRequest { .. } => (false, self),
            WorkMessageView::TransactionData { signature, data } => {
                if !data.encodable() || !self.authentic(
                    WORK_TRANSACTION_DATA,
                    data.encoding(),
                    signature,
                ) {
                    (false, self)
                } else if self.pending_tx_data_requests.contains_key(data.template_id) {
                    (
                        true,
                        JobProviderView {
                            pending_tx_data_requests: self.pending_tx_data_requests.remove(
                                data.template_id,
                            ),
                            fulfilled: self.fulfilled.push(
                                FulfilledRequestView {
                                    ticket: self.pending_tx_data_requests[data.template_id],
                                    data,
                                },
                            ),
                            ..self
                        },
                    )
                } else {
                    (true, self)
                }
            },
            WorkMessageView::CoinbasePrefixPostfix { signature, coinbase_prefix_postfix } => {
                if !coinbase_prefix_postfix.encodable() || !self.authentic(
                    WORK_COINBASE_PREFIX_POSTFIX,
                    coinbase_prefix_postfix.encoding(),
                    signature,
                ) {
                    (false, self)
                } else if !self.supersedes_postfix(coinbase_prefix_postfix) {
                    (true, self)
                } else {
                    let installed = JobProviderView {
                        cur_prefix_postfix: Some(coinbase_prefix_postfix),
                        ..self
                    };
                    match self.cur_template {
                        None => (true, installed),
                        Some(template) => if installed.can_issue() {
                            (true, installed.issue(template))
                        } else {
                            (false, installed)
                        },
                    }
                }
            },
        }
    }
}

/// What the proxy keeps of one job provider.
pub struct JobProviderHandler {
    have_pool: bool,
    stream: Option<Vec<WorkMessage>>,
    auth_key: Option<PublicKey>,
    cur_template: Option<BlockTemplate>,
    cur_prefix_postfix: Option<CoinbasePrefixPostfix>,
    pending_tx_data_requests: HashMap<u64, u64>,
    job_stream: Vec<ProviderJob>,
    fulfilled: Vec<FulfilledRequest>,
    next_ticket: u64,
}

impl View for JobProviderHandler {
    type V = JobProviderView;

    closed spec fn view(&self) -> JobProviderView {
        JobProviderView {
            have_pool: self.have_pool,
            stream: self.stream.deep_view(),
            auth_key: self.auth_key.deep_view(),
            cur_template: self.cur_template.deep_view(),
            cur_prefix_postfix: self.cur_prefix_postfix.deep_view(),
            pending_tx_data_requests: self.pending_tx_data_requests@,
            job_stream: self.job_stream.deep_view(),
            fulfilled: self.fulfilled.deep_view(),
            next_ticket: self.next_ticket,
        }
    }
}

impl JobProviderHandler {
    /// A handler for a provider that no connection was made to yet. With an
    /// `expected_auth_key` the provider must prove to hold that key; without
    /// one, the first key it names is taken.
    pub fn new(expected_auth_key: Option<PublicKey>, have_pool: bool) -> (handler: Self)
        ensures
            handler@ == (JobProviderView {
                have_pool,
                stream: None,
                auth_key: expected_auth_key.deep_view(),
                cur_template: None,
                cur_prefix_postfix: None,
                pending_tx_data_requests: Map::empty(),
                job_stream: Seq::empty(),
                fulfilled: Seq::empty(),
                next_ticket: 0,
            }),
    {
        let handler = JobProviderHandler {
            have_pool,
            stream: None,
            auth_key: expected_auth_key,
            cur_template: None,
            cur_prefix_postfix: None,
            pending_tx_data_requests: HashMap::new(),
            job_stream: Vec::new(),
            fulfilled: Vec::new(),
            next_ticket: 0,
        };
        assert(handler.job_stream.deep_view() =~= Seq::empty());
        assert(handler.fulfilled.deep_view() =~= Seq::empty());
        handler
    }

    /// A connection was made: the proxy opens by saying which versions it
    /// speaks, and whether it mines without a pool.
    pub fn new_connection(&mut self)
        ensures
            final(self)@ == old(self)@.connect(),
    {
        let mut queue: Vec<WorkMessage> = Vec::new();
        queue.push(
            WorkMessage::ProtocolSupport {
                max_version: PROTOCOL_VERSION,
                min_version: PROTOCOL_VERSION,
                flags: if self.have_pool {
                    0
                } else {
                    1
                },
            },
        );
        self.stream = Some(queue);
        assert(self.stream.deep_view().unwrap() =~= seq![
            WorkMessageView::ProtocolSupport {
                max_version: PROTOCOL_VERSION,
                min_version: PROTOCOL_VERSION,
                flags: if old(self)@.have_pool {
                    0u16
                } else {
                    1u16
                },
            },
        ]);
    }

    /// The connection is gone, and with it what waited to be sent.
    pub fn connection_closed(&mut self)
        ensures
            final(self)@ == old(self)@.close(),
    {
        self.stream = None;
    }

    /// Whether there is a connection to send on.
    pub fn is_connected(&self) -> (connected: bool)
        ensures
            connected == self@.stream is Some,
    {
        self.stream.is_some()
    }

    /// The id of the current template, if there is one.
    pub fn current_template_id(&self) -> (id: Option<u64>)
        ensures
            id == match self@.cur_template {
                Some(t) => Some(t.template_id),
                None => None,
            },
    {
        match &self.cur_template {
            Some(t) => Some(t.template_id),
            None => None,
        }
    }

    /// The timestamp of the current addition to the coinbase prefix, if
    /// there is one.
    pub fn current_postfix_timestamp(&self) -> (timestamp: Option<u64>)
        ensures
            timestamp == match self@.cur_prefix_postfix {
                Some(p) => Some(p.timestamp),
                None => None,
            },
    {
        match &self.cur_prefix_postfix {
            Some(p) => Some(p.timestamp),
            None => None,
        }
    }

    /// Queues `msg` to be sent, if there is a connection.
    fn enqueue(&mut self, msg: WorkMessage) -> (queued: bool)
        ensures
            queued == old(self)@.stream is Some,
            queued ==> final(self)@ == (JobProviderView {
                stream: Some(old(self)@.stream.unwrap().push(msg@)),
                ..old(self)@
            }),
            !queued ==> final(self)@ == old(self)@,
    {
        let mut stream: Option<Vec<WorkMessage>> = None;
        std::mem::swap(&mut stream, &mut self.stream);
        match stream {
            Some(mut queue) => {
                let ghost before = queue.deep_view();
                queue.push(msg);
                assert(queue.deep_view() =~= before.push(msg@));
                self.stream = Some(queue);
                true
            },
            None => false,
        }
    }

    /// Submits a solution that meets the template's own target to the
    /// provider. Without a connection the solution is lost.
    pub fn send_nonce(&mut self, work: WinningNonce) -> (sent: bool)
        ensures
            sent == old(self)@.stream is Some,
            sent ==> final(self)@ == (JobProviderView {
                stream: Some(
                    old(self)@.stream.unwrap().push(
                        WorkMessageView::WinningNonce { nonces: work@ },
                    ),
                ),
                ..old(self)@
            }),
            !sent ==> final(self)@ == old(self)@,
    {
        self.enqueue(WorkMessage::WinningNonce { nonces: work })
    }

    /// Hands out what waits to be sent, oldest first, and leaves nothing
    /// waiting.
    pub fn take_outbound(&mut self) -> (out: Vec<WorkMessage>)
        ensures
            out.deep_view() == match old(self)@.stream {
                Some(queue) => queue,
                None => Seq::empty(),
            },
            final(self)@ == (JobProviderView {
                stream: match old(self)@.stream {
                    Some(_) => Some(Seq::empty()),
                    None => None,
                },
                ..old(self)@
            }),
    {
        let mut stream: Option<Vec<WorkMessage>> = None;
        std::mem::swap(&mut stream, &mut self.stream);
        match stream {
            Some(queue) => {
                let fresh: Vec<WorkMessage> = Vec::new();
                assert(fresh.deep_view() =~= Seq::empty());
                self.stream = Some(fresh);
                queue
            },
            None => {
                let out: Vec<WorkMessage> = Vec::new();
                assert(out.deep_view() =~= Seq::empty());
                out
            },
        }
    }

    /// Hands out the jobs that wait to be merged, oldest first, and leaves
    /// none waiting.
    pub fn take_jobs(&mut self) -> (jobs: Vec<ProviderJob>)
        ensures
            jobs.deep_view() == old(self)@.job_stream,
            final(self)@ == (JobProviderView { job_stream: Seq::empty(), ..old(self)@ }),
    {
        let mut jobs: Vec<ProviderJob> = Vec::new();
        assert(jobs.deep_view() =~= Seq::empty());
        std::mem::swap(&mut jobs, &mut self.job_stream);
        jobs
    }

    /// Hands out the transaction data that came in for open requests,
    /// oldest first, and leaves none waiting.
    pub fn take_fulfilled(&mut self) -> (fulfilled: Vec<FulfilledRequest>)
        ensures
            fulfilled.deep_view() == old(self)@.fulfilled,
            final(self)@ == (JobProviderView { fulfilled: Seq::empty(), ..old(self)@ }),
    {
        let mut fulfilled: Vec<FulfilledRequest> = Vec::new();
        assert(fulfilled.deep_view() =~= Seq::empty());
        std::mem::swap(&mut fulfilled, &mut self.fulfilled);
        fulfilled
    }

    /// Whether `signature` signs `payload` under `tag` for the key that this
    /// provider is known by.
    fn check_signature(&self, tag: u8, payload: &[u8], signature: &Signature) -> (ok: bool)
        ensures
            ok == self@.authentic(tag, payload@, signature@),
    {
        match &self.auth_key {
            Some(key) => verify(key, tag, payload, signature),
            None => false,
        }
    }

    /// Issues a job for `template` with the current addition to the
    /// coinbase prefix.
    fn issue_job(&mut self, template: &BlockTemplate)
        requires
            old(self)@.can_issue(),
        ensures
            final(self)@ == old(self)@.issue(template@),
    {
        let ticket: u64 = self.next_ticket;
        let prefix_postfix: Option<CoinbasePrefixPostfix> = match &self.cur_prefix_postfix {
            Some(p) => Some(p.duplicate()),
            None => None,
        };
        let ghost jobs = self.job_stream.deep_view();
        let job = ProviderJob { template: template.duplicate(), prefix_postfix, ticket };
        self.job_stream.push(job);
        assert(self.job_stream.deep_view() =~= jobs.push(job@));
        self.enqueue(WorkMessage::TransactionDataRequest { template_id: template.template_id });
        self.pending_tx_data_requests.insert(template.template_id, ticket);
        self.next_ticket = if ticket == u64::MAX {
            0
        } else {
            ticket + 1
        };
    }

    /// Takes in a message from the provider. The state afterwards, and
    /// whether the message was allowed, are those that `handle` gives; an
    /// error closes the connection.
    pub fn handle_message(&mut self, msg: WorkMessage) -> (r: Result<(), HandleError>)
        ensures
            r is Ok == old(self)@.handle(msg@).0,
            final(self)@ == old(self)@.handle(msg@).1,
    {
        match msg {
            WorkMessage::ProtocolSupport { .. } => Err(HandleError),
            WorkMessage::ProtocolVersion { selected_version, auth_key } => {
                if selected_version != PROTOCOL_VERSION {
                    return Err(HandleError);
                }
                let known: Option<bool> = match &self.auth_key {
                    Some(key) => Some(key.same_as(&auth_key)),
                    None => None,
                };
                match known {
                    None => {
                        self.auth_key = Some(auth_key);
                        Ok(())
                    },
                    Some(true) => Ok(()),
                    Some(false) => Err(HandleError),
                }
            },
            WorkMessage::BlockTemplate { signature, template } => {
                if !template.is_encodable() {
                    return Err(HandleError);
                }
                let payload: Vec<u8> = template.unsigned_bytes();
                if !self.check_signature(WORK_BLOCK_TEMPLATE, payload.as_slice(), &signature) {
                    return Err(HandleError);
                }
                let newer: bool = match &self.cur_template {
                    Some(cur) => cur.template_id < template.template_id,
                    None => true,
                };
                if !newer {
                    return Ok(());
                }
                if self.stream.is_none() || self.job_stream.len() >= JOB_STREAM_CAPACITY {
                    return Err(HandleError);
                }
                self.issue_job(&template);
                self.cur_template = Some(template);
                Ok(())
            },
            WorkMessage::WinningNonce { .. } => Err(HandleError),
            WorkMessage::TransactionDataRequest { .. } => Err(HandleError),
            WorkMessage::TransactionData { signature, data } => {
                if !data.is_encodable() {
                    return Err(HandleError);
                }
                let payload: Vec<u8> = data.unsigned_bytes();
                if !self.check_signature(WORK_TRANSACTION_DATA, payload.as_slice(), &signature) {
                    return Err(HandleError);
                }
                match self.pending_tx_data_requests.remove(&data.template_id) {
                    Some(ticket) => {
                        let ghost before = self.fulfilled.deep_view();
                        let answer = FulfilledRequest { ticket, data };
                        self.fulfilled.push(answer);
                        assert(self.fulfilled.deep_view() =~= before.push(answer@));
                        assert(self@.pending_tx_data_requests =~= old(
                            self,
                        )@.pending_tx_data_requests.remove(data.template_id));
                    },
                    None => {
                        assert(self@.pending_tx_data_requests =~= old(
                            self,
                        )@.pending_tx_data_requests);
                    },
                }
                Ok(())
            },
            WorkMessage::CoinbasePrefixPostfix { signature, coinbase_prefix_postfix } => {
                if !coinbase_prefix_postfix.is_encodable() {
                    return Err(HandleError);
                }
                let payload: Vec<u8> = coinbase_prefix_postfix.unsigned_bytes();
                if !self.check_signature(
                    WORK_COINBASE_PREFIX_POSTFIX,
                    payload.as_slice(),
                    &signature,
                ) {
                    return Err(HandleError);
                }
                let newer: bool = match &self.cur_prefix_postfix {
                    Some(cur) => cur.timestamp < coinbase_prefix_postfix.timestamp,
                    None => true,
                };
                if !newer {
                    return Ok(());
                }
                self.cur_prefix_postfix = Some(coinbase_prefix_postfix);
                let template: Option<BlockTemplate> = match &self.cur_template {
                    Some(t) => Some(t.duplicate()),
                    None => None,
                };
                match template {
                    None => Ok(()),
                    Some(template) => {
                        if self.stream.is_none() || self.job_stream.len() >= JOB_STREAM_CAPACITY {
                            return Err(HandleError);
                        }
                        self.issue_job(&template);
                        Ok(())
                    },
                }
            },
        }
    }
}

impl ConnectionHandler<WorkMessage> for JobProviderHandler {
    open spec fn on_connect(&self, after: &Self) -> bool {
        after@ == self@.connect()
    }

    open spec fn on_message(&self, msg: WorkMessage, after: &Self, ok: bool) -> bool {
        ok == self@.handle(msg@).0 && after@ == self@.handle(msg@).1
    }

    open spec fn on_close(&self, after: &Self) -> bool {
        after@ == self@.close()
    }

    fn new_connection(&mut self) {
        JobProviderHandler::new_connection(self)
    }

    fn handle_message(&mut self, msg: WorkMessage) -> (r: Result<(), HandleError>) {
        JobProviderHandler::handle_message(self, msg)
    }

    fn connection_closed(&mut self) {
        JobProviderHandler::connection_closed(self)
    }
}

/// The state after a run of messages, handled one after the other.
pub open spec fn run(s: JobProviderView, msgs: Seq<WorkMessageView>) -> JobProviderView
    decreases msgs.len(),
{
    if msgs.len() == 0 {
        s
    } else {
        run(s, msgs.drop_last()).handle(msgs.last()).1
    }
}

/// The id of the current template, or -1 where there is none.
pub open spec fn template_mark(s: JobProviderView) -> int {
    match s.cur_template {
        Some(t) => t.template_id as int,
        None => -1,
    }
}

/// The timestamp of the current addition to the coinbase prefix, or -1
/// where there is none.
pub open spec fn postfix_mark(s: JobProviderView) -> int {
    match s.cur_prefix_postfix {
        Some(p) => p.timestamp as int,
        None => -1,
    }
}

/// A message that carries a signature is allowed only if the signature
/// verifies under the provider's key, over the tag and the payload as
/// sent; one that does not verify changes nothing.
pub proof fn lemma_signed_messages_verify(s: JobProviderView, msg: WorkMessageView)
    ensures
        msg matches WorkMessageView::BlockTemplate { signature, template } ==> {
            let valid = s.authentic(WORK_BLOCK_TEMPLATE, template.encoding(), signature);
            &&& s.handle(msg).0 ==> valid
            &&& !valid ==> s.handle(msg).1 == s
        },
        msg matches WorkMessageView::TransactionData { signature, data } ==> {
            let valid = s.authentic(WORK_TRANSACTION_DATA, data.encoding(), signature);
            &&& s.handle(msg).0 ==> valid
            &&& !valid ==> s.handle(msg).1 == s
        },
        msg matches WorkMessageView::CoinbasePrefixPostfix { signature, coinbase_prefix_postfix }
            ==> {
            let valid = s.authentic(
                WORK_COINBASE_PREFIX_POSTFIX,
                coinbase_prefix_postfix.encoding(),
                signature,
            );
            &&& s.handle(msg).0 ==> valid
            &&& !valid ==> s.handle(msg).1 == s
        },
{
}

/// The current template changes only to a template that came signed and
/// whose id is greater than that of the one it replaces.
pub proof fn lemma_template_replaced_by_newer(s: JobProviderView, msg: WorkMessageView)
    ensures
        s.handle(msg).1.cur_template != s.cur_template ==> {
            &&& msg matches WorkMessageView::BlockTemplate { signature, template }
            &&& s.handle(msg).1.cur_template == Some(template)
            &&& s.authentic(WORK_BLOCK_TEMPLATE, template.encoding(), signature)
            &&& template_mark(s) < template.template_id
        },
        template_mark(s) <= template_mark(s.handle(msg).1),
{
}

/// The current addition to the coinbase prefix changes only to one that
/// came signed and whose timestamp is greater than that of the one it
/// replaces.
pub proof fn lemma_postfix_replaced_by_newer(s: JobProviderView, msg: WorkMessageView)
    ensures
        s.handle(msg).1.cur_prefix_postfix != s.cur_prefix_postfix ==> {
            &&& msg matches WorkMessageView::CoinbasePrefixPostfix {
                signature,
                coinbase_prefix_postfix,
            }
            &&& s.handle(msg).1.cur_prefix_postfix == Some(coinbase_prefix_postfix)
            &&& s.authentic(
                WORK_COINBASE_PREFIX_POSTFIX,
                coinbase_prefix_postfix.encoding(),
                signature,
            )
            &&& postfix_mark(s) < coinbase_prefix_postfix.timestamp
        },
        postfix_mark(s) <= postfix_mark(s.handle(msg).1),
{
}

/// Over any run of messages, neither the id of the current template nor
/// the timestamp of the current addition ever falls: whatever is accepted
/// later exceeds all that was accepted before.
pub proof fn lemma_marks_never_fall(s: JobProviderView, msgs: Seq<WorkMessageView>, k: int)
    requires
        0 <= k <= msgs.len(),
    ensures
        template_mark(run(s, msgs.take(k))) <= template_mark(run(s, msgs)),
        postfix_mark(run(s, msgs.take(k))) <= postfix_mark(run(s, msgs)),
    decreases msgs.len(),
{
    if k == msgs.len() {
        assert(msgs.take(k) =~= msgs);
    } else {
        let front = msgs.drop_last();
        assert(front.take(k) =~= msgs.take(k));
        lemma_marks_never_fall(s, front, k);
        lemma_template_replaced_by_newer(run(s, front), msgs.last());
        lemma_postfix_replaced_by_newer(run(s, front), msgs.last());
    }
}

/// No message makes more jobs wait than there is room for: a job is issued
/// only where there is room, and a message that finds none closes the
/// connection.
pub proof fn lemma_job_stream_bounded(s: JobProviderView, msg: WorkMessageView)
    requires
        s.job_stream.len() <= JOB_STREAM_CAPACITY,
    ensures
        s.handle(msg).1.job_stream.len() <= JOB_STREAM_CAPACITY,
        s.handle(msg).1.job_stream != s.job_stream ==> s.handle(msg).0 && s.can_issue(),
{
}

} // verus!
