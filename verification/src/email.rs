//! The planning half of the due-date notification scheduler.
//!
//! Once a day, at six in the morning of a fixed time zone, a pass walks
//! every user, collects the tasks due that day that are not yet done,
//! and produces one HTML digest per user who has any. Users with nothing
//! due get no email. The caller owns the clock, the sleep and the mail
//! transport; this module computes the wake-up delay and the exact batch
//! of messages to send.

use vstd::prelude::*;

use crate::digits::{dec_str, u64_to_string};
use crate::model::{status_name, Date, Task, User};
use crate::task_repository::{due_tasks, lemma_filter_push, TaskRepository};
use crate::user_repository::UserRepository;

verus! {

/// Seconds in a day.
pub open spec fn spec_day_seconds() -> nat {
    86400
}

/// The pass fires at six in the morning, local time.
pub open spec fn spec_fire_second() -> nat {
    21600
}

/// Seconds to sleep from `seconds_since_midnight` (local time) until six
/// in the morning of the next day. The trigger is always on the next
/// day, even before six in the morning of the current one.
pub fn seconds_until_next_morning(seconds_since_midnight: u32) -> (r: u32)
    requires
        seconds_since_midnight < 86400,
    ensures
        r == spec_day_seconds() - seconds_since_midnight + spec_fire_second(),
{
    86400 - seconds_since_midnight + 21600
}

/// A digest ready for the mail transport.
pub struct EmailMessage {
    pub to: String,
    pub subject: String,
    pub body: String,
}

/// A number below one hundred, zero-padded to two characters.
pub open spec fn pad2_str(n: nat) -> Seq<char> {
    if n < 10 {
        seq!['0'] + dec_str(n)
    } else {
        dec_str(n)
    }
}

/// A number below ten thousand, zero-padded to four characters.
pub open spec fn pad4_str(n: nat) -> Seq<char> {
    if n < 10 {
        seq!['0', '0', '0'] + dec_str(n)
    } else if n < 100 {
        seq!['0', '0'] + dec_str(n)
    } else if n < 1000 {
        seq!['0'] + dec_str(n)
    } else {
        dec_str(n)
    }
}

/// A date rendered as year, month and day, dash-separated and padded.
pub open spec fn date_str(d: Date) -> Seq<char> {
    pad4_str(d.year as nat) + seq!['-'] + pad2_str(d.month as nat) + seq!['-'] + pad2_str(
        d.day as nat,
    )
}

/// The digest's subject line for `d`.
pub open spec fn subject_of(d: Date) -> Seq<char> {
    "Tasks due on "@ + date_str(d)
}

/// One digest list item: title, description and status of a task.
pub open spec fn html_item(t: Task) -> Seq<char> {
    "<li><b>"@ + t.title@ + "</b> -> "@ + t.description@ + " -> [In: "@ + status_name(t.status)
        + "]</li>"@
}

/// The digest list items for `tasks`, in order.
pub open spec fn html_items(tasks: Seq<Task>) -> Seq<char>
    decreases tasks.len(),
{
    if tasks.len() == 0 {
        Seq::empty()
    } else {
        html_items(tasks.drop_last()) + html_item(tasks.last())
    }
}

/// The full HTML digest body for `tasks`.
pub open spec fn html_body_of(tasks: Seq<Task>) -> Seq<char> {
    "<html><body>"@ + "<h1>Tasks Due Today</h1>"@ + "<ul>"@ + html_items(tasks) + "</ul>"@
        + "</body></html>"@
}

/// The users owed a digest for `today`: those with at least one task due
/// and not done, in store order.
pub open spec fn due_users(users: Seq<User>, tasks: Seq<Task>, today: Date) -> Seq<User> {
    users.filter(|u: User| due_tasks(tasks, u.id, today).len() > 0)
}

/// Renders a number below one hundred, zero-padded to two characters.
fn pad2(n: u8) -> (r: String)
    requires
        n < 100,
    ensures
        r@ == pad2_str(n as nat),
{
    proof {
        reveal_strlit("0");
    }
    if n < 10 {
        let mut s = "0".to_owned();
        s.append(u64_to_string(n as u64).as_str());
        proof {
            assert(s@ =~= pad2_str(n as nat));
        }
        s
    } else {
        u64_to_string(n as u64)
    }
}

/// Renders a number below ten thousand, zero-padded to four characters.
fn pad4(n: u16) -> (r: String)
    requires
        n < 10000,
    ensures
        r@ == pad4_str(n as nat),
{
    proof {
        reveal_strlit("0");
        reveal_strlit("00");
        reveal_strlit("000");
    }
    if n < 10 {
        let mut s = "000".to_owned();
        s.append(u64_to_string(n as u64).as_str());
        proof {
            assert(s@ =~= pad4_str(n as nat));
        }
        s
    } else if n < 100 {
        let mut s = "00".to_owned();
        s.append(u64_to_string(n as u64).as_str());
        proof {
            assert(s@ =~= pad4_str(n as nat));
        }
        s
    } else if n < 1000 {
        let mut s = "0".to_owned();
        s.append(u64_to_string(n as u64).as_str());
        proof {
            assert(s@ =~= pad4_str(n as nat));
        }
        s
    } else {
        u64_to_string(n as u64)
    }
}

/// Renders a date as the digest subject shows it.
pub fn date_string(d: &Date) -> (r: String)
    requires
        d.valid(),
    ensures
        r@ == date_str(*d),
{
    proof {
        reveal_strlit("-");
    }
    let mut s = pad4(d.year);
    s.append("-");
    s.append(pad2(d.month).as_str());
    s.append("-");
    s.append(pad2(d.day).as_str());
    proof {
        assert(s@ =~= date_str(*d));
    }
    s
}

/// The digest's subject line for `today`.
pub fn subject_for(today: &Date) -> (r: String)
    requires
        today.valid(),
    ensures
        r@ == subject_of(*today),
{
    let mut s = "Tasks due on ".to_owned();
    s.append(date_string(today).as_str());
    proof {
        assert(s@ =~= subject_of(*today));
    }
    s
}

/// Builds the HTML digest listing title, description and status of each
/// task, in order.
#[verifier::loop_isolation(false)]
pub fn build_html_body(tasks: &Vec<Task>) -> (r: String)
    ensures
        r@ == html_body_of(tasks@),
{
    let mut body = "<html><body>".to_owned();
    body.append("<h1>Tasks Due Today</h1>");
    body.append("<ul>");
    let n = tasks.len();
    let mut i: usize = 0;
    while i < n
        invariant
            0 <= i <= n,
            n == tasks@.len(),
            body@ == "<html><body>"@ + "<h1>Tasks Due Today</h1>"@ + "<ul>"@ + html_items(
                tasks@.subrange(0, i as int),
            ),
        decreases n - i,
    {
        let t = &tasks[i];
        body.append("<li><b>");
        body.append(t.title.as_str());
        body.append("</b> -> ");
        body.append(t.description.as_str());
        body.append(" -> [In: ");
        body.append(t.status.name());
        body.append("]</li>");
        proof {
            let prefix = tasks@.subrange(0, i as int);
            assert(tasks@.subrange(0, i + 1) =~= prefix.push(tasks@[i as int]));
            assert(tasks@.subrange(0, i + 1).drop_last() =~= prefix);
            assert(body@ =~= "<html><body>"@ + "<h1>Tasks Due Today</h1>"@ + "<ul>"@ + html_items(
                tasks@.subrange(0, i + 1),
            ));
        }
        i = i + 1;
    }
    body.append("</ul>");
    body.append("</body></html>");
    proof {
        assert(tasks@.subrange(0, n as int) =~= tasks@);
        assert(body@ =~= html_body_of(tasks@));
    }
    body
}

/// One scheduler pass, as a batch of messages: exactly one digest per
/// user with at least one task due `today` and not done, in store order;
/// users with nothing due get no message. Each digest goes to its user's
/// email, under the day's subject, with the body listing exactly that
/// user's due tasks.
#[verifier::loop_isolation(false)]
pub fn plan_due_emails(user_repo: &UserRepository, task_repo: &TaskRepository, today: Date) -> (r:
    Vec<EmailMessage>)
    requires
        today.valid(),
    ensures
        r@.len() == due_users(user_repo.users@, task_repo.tasks@, today).len(),
        forall|k: int|
            0 <= k < r@.len() ==> (#[trigger] r@[k].to@) == due_users(
                user_repo.users@,
                task_repo.tasks@,
                today,
            )[k].email@ && r@[k].subject@ == subject_of(today) && r@[k].body@ == html_body_of(
                due_tasks(
                    task_repo.tasks@,
                    due_users(user_repo.users@, task_repo.tasks@, today)[k].id,
                    today,
                ),
            ),
{
    let ghost has_due = |u: User| due_tasks(task_repo.tasks@, u.id, today).len() > 0;
    let n = user_repo.users.len();
    let mut out: Vec<EmailMessage> = Vec::new();
    let mut i: usize = 0;
    while i < n
        invariant
            0 <= i <= n,
            n == user_repo.users@.len(),
            out@.len() == user_repo.users@.subrange(0, i as int).filter(has_due).len(),
            forall|k: int|
                0 <= k < out@.len() ==> (#[trigger] out@[k].to@) == user_repo.users@.subrange(
                    0,
                    i as int,
                ).filter(has_due)[k].email@ && out@[k].subject@ == subject_of(today)
                    && out@[k].body@ == html_body_of(
                    due_tasks(
                        task_repo.tasks@,
                        user_repo.users@.subrange(0, i as int).filter(has_due)[k].id,
                        today,
                    ),
                ),
        decreases n - i,
    {
        proof {
            assert(user_repo.users@.subrange(0, i + 1) =~= user_repo.users@.subrange(
                0,
                i as int,
            ).push(user_repo.users@[i as int]));
            lemma_filter_push(
                user_repo.users@.subrange(0, i as int),
                has_due,
                user_repo.users@[i as int],
            );
        }
        let user = &user_repo.users[i];
        let user_tasks = match task_repo.find_by_due_date(user.id, today) {
            Ok(tasks) => tasks,
            Err(_) => Vec::new(),
        };
        if user_tasks.len() > 0 {
            let message = EmailMessage {
                to: user.email.clone(),
                subject: subject_for(&today),
                body: build_html_body(&user_tasks),
            };
            out.push(message);
        }
        i = i + 1;
    }
    proof {
        assert(user_repo.users@.subrange(0, n as int) =~= user_repo.users@);
    }
    out
}

} // verus!
