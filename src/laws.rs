//! Properties of the relay that span several operations.

use crate::directory::{dir_handles, lemma_insert_binds};
use crate::history::{
    history_text_lines, keep_last, lemma_logs_append, log_append, logs_wf, private_of,
};
use crate::keyed::{key_value, keys_unique};
use crate::message::ReplyView;
use crate::router::{
    history_text, issued_line, offline_error, spec_command, spec_dispatch, spec_register,
    spec_shutdown, StateView,
};
use vstd::prelude::*;

verus! {

/// After `name` is registered twice, with two handles, a private message to
/// `name` reaches the second handle and no other.
pub proof fn lemma_registration_overwrite(
    s: StateView,
    name: Seq<char>,
    first: u64,
    second: u64,
    from: Seq<char>,
    content: Seq<char>,
)
    requires
        keys_unique(s.clients),
    ensures
        spec_dispatch(
            spec_register(spec_register(s, name, first).0, name, second).0,
            from,
            name,
            content,
        ).1 == seq![(second, ReplyView::PrivateMessage { from, to: name, content })],
{
    let s1 = spec_register(s, name, first).0;
    lemma_insert_binds(s.clients, name, first);
    lemma_insert_binds(s1.clients, name, second);
}

/// The last line appended to a log is its last line.
pub proof fn lemma_log_append_last(lines: Seq<Seq<char>>, line: Seq<char>)
    ensures
        log_append(lines, line).len() > 0,
        log_append(lines, line).last() == line,
{
    let p = lines.push(line);
    assert(p.last() == line);
    if p.len() > crate::history::MAX_HISTORY_SIZE {
        assert(keep_last(p).last() == p.last());
    }
}

/// After a private message from `a` to `b`, the log of `a` ends with the
/// line it sent and the log of `b` with the line it received.
pub proof fn lemma_private_history_symmetry(
    s: StateView,
    a: Seq<char>,
    b: Seq<char>,
    content: Seq<char>,
)
    requires
        logs_wf(s.privates),
        a != b,
    ensures
        private_of(spec_dispatch(s, a, b, content).0.privates, a).last() == "You → "@ + b + ": "@
            + content,
        private_of(spec_dispatch(s, a, b, content).0.privates, b).last() == a + " → You: "@
            + content,
{
    let sent = "You → "@ + b + ": "@ + content;
    let received = a + " → You: "@ + content;
    let mid = crate::history::logs_append(s.privates, a, sent);
    lemma_logs_append(s.privates, a, sent, a);
    lemma_logs_append(mid, b, received, a);
    lemma_logs_append(s.privates, a, sent, b);
    lemma_logs_append(mid, b, received, b);
    lemma_log_append_last(private_of(s.privates, a), sent);
    lemma_log_append_last(private_of(mid, b), received);
}

/// A private message to a name that nobody holds yields exactly one error,
/// sent back to the sender, and nothing for anyone else.
pub proof fn lemma_missing_target(
    s: StateView,
    from: Seq<char>,
    sender: u64,
    to: Seq<char>,
    content: Seq<char>,
)
    requires
        key_value(s.clients, to) is None,
        key_value(s.clients, from) == Some(sender),
    ensures
        spec_dispatch(s, from, to, content).1 == seq![
            (sender, ReplyView::Error { content: offline_error(), to: from }),
        ],
{
}

/// `/history` is journaled before the log is read back, so the private part
/// of the reply ends with the command itself.
pub proof fn lemma_history_self_inclusion(s: StateView, from: Seq<char>, issuer: u64)
    requires
        logs_wf(s.privates),
        key_value(s.clients, from) == Some(issuer),
    ensures
        ({
            let issued = issued_line("/history"@);
            let text = history_text(s.global, log_append(private_of(s.privates, from), issued));
            &&& spec_command(s, from, "/history"@).1 == seq![
                (issuer, ReplyView::History { content: text, to: from }),
            ]
            &&& text.len() >= issued.len()
            &&& text.subrange(text.len() - issued.len(), text.len() as int) == issued
        }),
{
    reveal_strlit("/history");
    reveal_strlit("/users");
    let issued = issued_line("/history"@);
    lemma_logs_append(s.privates, from, issued, from);
    let own = log_append(private_of(s.privates, from), issued);
    lemma_log_append_last(private_of(s.privates, from), issued);
    let all = seq!["=== Broadcast History ==="@] + s.global + seq!["=== Your Private History ==="@]
        + own;
    assert(all.len() >= 2);
    assert(all.last() == issued);
    let text = history_text_lines(all);
    assert(text == history_text_lines(all.drop_last()) + "\n"@ + issued);
    assert(text.subrange(text.len() - issued.len(), text.len() as int) =~= issued);
}

/// On shutdown with each registered connection holding its own handle, every
/// one of them receives exactly one `Exit`, nothing else is sent, and the
/// directory is left empty.
pub proof fn lemma_shutdown_fan_out(s: StateView)
    requires
        forall|i: int, j: int|
            0 <= i < j < s.clients.len() ==> dir_handles(s.clients)[i] != dir_handles(
                s.clients,
            )[j],
    ensures
        spec_shutdown(s).0.clients.len() == 0,
        spec_shutdown(s).1.len() == s.clients.len(),
        forall|i: int|
            0 <= i < s.clients.len() ==> spec_shutdown(s).1[i] == (s.clients[i].1, ReplyView::Exit),
        forall|i: int, j: int|
            0 <= i < s.clients.len() && 0 <= j < s.clients.len() && i != j ==> spec_shutdown(s).1[i].0
                != spec_shutdown(s).1[j].0,
{
    let h = dir_handles(s.clients);
    assert forall|i: int, j: int|
        0 <= i < s.clients.len() && 0 <= j < s.clients.len() && i != j implies spec_shutdown(
        s,
    ).1[i].0 != spec_shutdown(s).1[j].0 by {
        if i < j {
            assert(h[i] != h[j]);
        } else {
            assert(h[j] != h[i]);
        }
    }
}

} // verus!
