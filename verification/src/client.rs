//! Job execution against a plain model of the remote service and of the
//! export sink.
//!
//! [`run_job`] is the decision core of the dispatch bridge: given the
//! state of the client and the sink, it consumes one [`Job`] and
//! produces the one [`Outcome`] that answers it.  The model captures
//! everything the bridge's decisions depend on — whether the service is
//! reachable, whether the session is already authorized, which one-time
//! code the service accepts, which groups it knows and what their page
//! sources yield — as plain values, so every branch of the logic is
//! checked.  The process that owns a real network client performs each
//! remote call at the point where the model reads the corresponding
//! field, and the exclusive borrow of the model here mirrors the
//! mutually exclusive acquisition of the shared client handle there.

use vstd::prelude::*;

use crate::auth::PendingToken;
use crate::export::{export_csv, spec_export};
use crate::jobs::{mirrors, Job, Outcome};
use crate::member::same_records;
use crate::page::{drain, spec_drain, PageEvent};

verus! {

/// One group the service knows: its identifier, the total count its
/// page source reports up front (a hint, possibly stale), and the
/// answers the source gives, in order.
pub struct GroupModel {
    pub name: String,
    pub total: usize,
    pub events: Vec<PageEvent>,
}

/// The remote client behind the shared handle, as the plain values the
/// bridge's decisions read.
pub struct ClientModel {
    /// Whether remote calls reach the service; a call made while the
    /// service is unreachable fails.
    pub online: bool,
    /// Whether the loaded session is already authorized.
    pub authorized: bool,
    /// Whether the account demands a secondary secret at sign-in — the
    /// flow this design does not implement.
    pub password_required: bool,
    /// The one-time code the service accepts for sign-in.
    pub accepted_code: String,
    /// The id the next issued login token will carry.
    pub next_token_id: u64,
    /// Whether persisting the session to disk will succeed.
    pub persist_ok: bool,
    /// Whether the session has been persisted.
    pub session_persisted: bool,
    /// The groups the service can resolve by identifier.
    pub groups: Vec<GroupModel>,
}

/// One completed write of an export file.
pub struct ExportFile {
    pub name: String,
    pub content: String,
}

/// The export sink: whether opening an output resource succeeds, and
/// the log of completed writes.  Its view is the resulting file-system
/// content, name to text; a later write of the same name replaces the
/// earlier one, as truncate-on-create does.
pub struct FileSink {
    pub ok: bool,
    pub writes: Vec<ExportFile>,
}

/// The file-system content a write log leaves behind: the last write of
/// each name wins.
pub open spec fn files_map(files: Seq<ExportFile>) -> Map<Seq<char>, Seq<char>>
    decreases files.len(),
{
    if files.len() == 0 {
        Map::empty()
    } else {
        files_map(files.drop_last()).insert(files.last().name@, files.last().content@)
    }
}

impl View for FileSink {
    type V = Map<Seq<char>, Seq<char>>;

    open spec fn view(&self) -> Map<Seq<char>, Seq<char>> {
        files_map(self.writes@)
    }
}

proof fn lemma_files_map_push(files: Seq<ExportFile>, f: ExportFile)
    ensures
        files_map(files.push(f)) == files_map(files).insert(f.name@, f.content@),
{
    assert(files.push(f).drop_last() =~= files);
    assert(files.push(f).last() == f);
}

/// The first group with this identifier, if the service knows one.
pub open spec fn find_group(groups: Seq<GroupModel>, name: Seq<char>) -> Option<GroupModel>
    decreases groups.len(),
{
    if groups.len() == 0 {
        None
    } else if groups[0].name@ == name {
        Some(groups[0])
    } else {
        find_group(groups.drop_first(), name)
    }
}

/// Looks the group up by identifier, first match.
fn find_group_index(groups: &Vec<GroupModel>, name: &String) -> (r: Option<usize>)
    ensures
        (r matches Some(idx) ==> idx < groups@.len() && find_group(groups@, name@) == Some(
            groups@[idx as int],
        )),
        r is None ==> find_group(groups@, name@) is None,
{
    let mut i: usize = 0;
    proof {
        assert(groups@.skip(0) =~= groups@);
    }
    while i < groups.len()
        invariant
            i <= groups@.len(),
            find_group(groups@.skip(i as int), name@) == find_group(groups@, name@),
        decreases groups@.len() - i,
    {
        proof {
            assert(groups@.skip(i as int)[0] == groups@[i as int]);
            assert(groups@.skip(i as int).drop_first() =~= groups@.skip(i as int + 1));
        }
        if groups[i].name == *name {
            return Some(i);
        }
        i += 1;
    }
    proof {
        assert(groups@.skip(groups@.len() as int) =~= Seq::<GroupModel>::empty());
    }
    None
}

/// The sign-in inputs on which the service would demand the secondary
/// secret: an unauthorized, reachable client, a password-protected
/// account, an issued token and the accepted code.  The design treats
/// this flow as an unrecoverable configuration error and does not run
/// it, so [`run_job`] leaves these inputs out.
pub open spec fn hits_password_branch(client: ClientModel, job: Job) -> bool {
    &&& job matches Job::SubmitCode(token, code)
    &&& client.online
    &&& !client.authorized
    &&& client.password_required
    &&& token.id < client.next_token_id
    &&& code@ == client.accepted_code@
}

/// Executes one job against the client and the sink and produces the
/// one outcome that answers it.
///
/// A code request against an authorized client needs no token; against
/// an unauthorized one it issues a fresh token.  A code submission
/// signs in exactly when the token was issued and the code is the one
/// the service accepts; on success the session is persisted
/// best-effort, and a persistence failure does not block success.  A
/// member fetch drains the group's page source and reports the total
/// the source claimed.  An export renders the records and writes one
/// file named after the group, replacing any earlier content; it
/// succeeds exactly when the sink can open the resource.  Any remote
/// operation attempted while the service is unreachable yields the
/// absence marker, never an error payload.
pub fn run_job(client: &mut ClientModel, sink: &mut FileSink, job: Job) -> (outcome: Outcome)
    requires
        job matches Job::RequestCode(_) && old(client).online && !old(client).authorized ==> old(
            client,
        ).next_token_id < u64::MAX,
        !hits_password_branch(*old(client), job),
    ensures
        mirrors(job, outcome),
        job matches Job::RequestCode(_) ==> {
            &&& *final(sink) == *old(sink)
            &&& if !old(client).online {
                outcome == Outcome::CodeRequested(None) && *final(client) == *old(client)
            } else if old(client).authorized {
                outcome == Outcome::CodeRequested(Some(None)) && *final(client) == *old(client)
            } else {
                &&& outcome == Outcome::CodeRequested(
                    Some(Some(PendingToken { id: old(client).next_token_id })),
                )
                &&& *final(client) == (ClientModel {
                    next_token_id: (old(client).next_token_id + 1) as u64,
                    ..*old(client)
                })
            }
        },
        job matches Job::SubmitCode(token, code) ==> {
            &&& *final(sink) == *old(sink)
            &&& if !old(client).online {
                outcome == Outcome::CodeSubmitted(None) && *final(client) == *old(client)
            } else if old(client).authorized {
                outcome == Outcome::CodeSubmitted(Some(())) && *final(client) == *old(client)
            } else if token.id < old(client).next_token_id && code@ == old(
                client,
            ).accepted_code@ {
                &&& outcome == Outcome::CodeSubmitted(Some(()))
                &&& *final(client) == (ClientModel {
                    authorized: true,
                    session_persisted: old(client).persist_ok,
                    ..*old(client)
                })
            } else {
                outcome == Outcome::CodeSubmitted(None) && *final(client) == *old(client)
            }
        },
        job matches Job::FetchMembers(name) ==> {
            &&& *final(client) == *old(client)
            &&& *final(sink) == *old(sink)
            &&& if old(client).online && find_group(old(client).groups@, name@) is Some {
                &&& find_group(old(client).groups@, name@) matches Some(g)
                &&& outcome matches Outcome::MembersFetched(n, Some((records, total)))
                &&& n@ == name@
                &&& same_records(records@, spec_drain(g.events@))
                &&& total == g.total
            } else {
                outcome matches Outcome::MembersFetched(n, r) && n@ == name@ && r is None
            }
        },
        job matches Job::ExportMembers(name, records) ==> {
            &&& *final(client) == *old(client)
            &&& final(sink).ok == old(sink).ok
            &&& if old(sink).ok {
                &&& outcome matches Outcome::Exported(n, flag)
                &&& n@ == name@
                &&& flag
                &&& final(sink)@ == old(sink)@.insert(name@, spec_export(records@))
            } else {
                &&& outcome matches Outcome::Exported(n, flag)
                &&& n@ == name@
                &&& !flag
                &&& *final(sink) == *old(sink)
            }
        },
{
    match job {
        Job::RequestCode(_phone) => {
            if !client.online {
                Outcome::CodeRequested(None)
            } else if client.authorized {
                Outcome::CodeRequested(Some(None))
            } else {
                let token = PendingToken { id: client.next_token_id };
                client.next_token_id = client.next_token_id + 1;
                Outcome::CodeRequested(Some(Some(token)))
            }
        },
        Job::SubmitCode(token, code) => {
            if !client.online {
                Outcome::CodeSubmitted(None)
            } else if client.authorized {
                Outcome::CodeSubmitted(Some(()))
            } else if token.id < client.next_token_id && code == client.accepted_code {
                client.authorized = true;
                client.session_persisted = client.persist_ok;
                Outcome::CodeSubmitted(Some(()))
            } else {
                Outcome::CodeSubmitted(None)
            }
        },
        Job::FetchMembers(name) => {
            if !client.online {
                Outcome::MembersFetched(name, None)
            } else {
                match find_group_index(&client.groups, &name) {
                    Some(idx) => {
                        let records = drain(&client.groups[idx].events);
                        let total = client.groups[idx].total;
                        Outcome::MembersFetched(name, Some((records, total)))
                    },
                    None => Outcome::MembersFetched(name, None),
                }
            }
        },
        Job::ExportMembers(name, records) => {
            if !sink.ok {
                Outcome::Exported(name, false)
            } else {
                let content = export_csv(&records);
                let file_name = name.clone();
                proof {
                    lemma_files_map_push(
                        sink.writes@,
                        (ExportFile { name: file_name, content: content }),
                    );
                }
                sink.writes.push(ExportFile { name: file_name, content });
                Outcome::Exported(name, true)
            }
        },
    }
}

/// Re-running an export of the same records over the same group leaves
/// the sink exactly as one run leaves it: the file is truncated and
/// rewritten, byte-identical, so exporting is idempotent.
pub proof fn lemma_export_idempotent(
    files: Map<Seq<char>, Seq<char>>,
    name: Seq<char>,
    content: Seq<char>,
)
    ensures
        files.insert(name, content).insert(name, content) == files.insert(name, content),
{
    assert(files.insert(name, content).insert(name, content) =~= files.insert(name, content));
}

} // verus!
