//! Request dispatch: route recognition, the JSON record shapes, and the
//! handler for each endpoint.
//!
//! Two endpoints are public (the event list and the single event); every
//! other path — recognized or not — demands successful authentication before
//! its handler runs. Validation failures and missing resources answer with
//! an error-shaped body at success status, as the wire contract has it;
//! authentication failures answer 401 and ownership failures 403.
use vstd::prelude::*;
use crate::auth::AuthError;
use crate::auth::Claims;
use crate::auth::auth_error_msg;
use crate::auth::auth_error_message;
use crate::http::HttpStatus;
use crate::http::create_json_response;
use crate::http::error_body;
use crate::http::http_response;
use crate::http::make_error_body;
use crate::http::make_success_body;
use crate::http::opt_str_view;
use crate::http::success_body;
use crate::json::escape_json;
use crate::json::escape_json_chars;
use crate::query::get_param;
use crate::query::lemma_split_at_first;
use crate::query::lemma_split_len_ge_1;
use crate::query::lemma_split_no_sep;
use crate::query::lookup_pairs;
use crate::query::parse_query;
use crate::query::query_pairs;
use crate::query::split_on;
use crate::store::Event;
use crate::store::Store;
use crate::store::User;
use crate::store::event_at_uid;
use crate::store::events_of_owner;
use crate::store::events_without;
use crate::store::has_event_uid;
use crate::store::has_subject;
use crate::store::subject_user;
use crate::store::user_id_exists;
use crate::text::dec_chars_of;
use crate::text::dec_val_of;
use crate::text::find_char;
use crate::text::is_prefix_of;
use crate::text::is_valid_u64;
use crate::text::parse_u64;
use crate::text::str_eq;
use crate::text::str_has_prefix;
use crate::text::u64_to_string;

verus! {

/// The JSON record shape of one event.
pub open spec fn event_json(e: Event) -> Seq<char> {
    "{\"uid\": "@ + dec_chars_of(e.uid as nat) + ", \"title\": \""@ + escape_json_chars(e.title@)
        + "\", \"description\": \""@ + escape_json_chars(e.description@) + "\", \"date\": \""@
        + escape_json_chars(e.date@) + "\", \"location\": \""@ + escape_json_chars(e.location@)
        + "\", \"imageUrl\": \""@ + escape_json_chars(e.image_url@) + "\", \"mapPosition\": \""@
        + escape_json_chars(e.map_position@) + "\", \"userId\": "@ + dec_chars_of(e.owner as nat)
        + "}"@
}

/// One event written as its JSON record.
pub fn event_json_exec(e: &Event) -> (r: String)
    ensures
        r@ == event_json(*e),
{
    let mut r = String::from_str("{\"uid\": ");
    let uid = u64_to_string(e.uid);
    r.append(uid.as_str());
    r.append(", \"title\": \"");
    let title = escape_json(e.title.as_str());
    r.append(title.as_str());
    r.append("\", \"description\": \"");
    let description = escape_json(e.description.as_str());
    r.append(description.as_str());
    r.append("\", \"date\": \"");
    let date = escape_json(e.date.as_str());
    r.append(date.as_str());
    r.append("\", \"location\": \"");
    let location = escape_json(e.location.as_str());
    r.append(location.as_str());
    r.append("\", \"imageUrl\": \"");
    let image_url = escape_json(e.image_url.as_str());
    r.append(image_url.as_str());
    r.append("\", \"mapPosition\": \"");
    let map_position = escape_json(e.map_position.as_str());
    r.append(map_position.as_str());
    r.append("\", \"userId\": ");
    let owner = u64_to_string(e.owner);
    r.append(owner.as_str());
    r.append("}");
    proof {
        assert(r@ =~= event_json(*e));
    }
    r
}

/// Event records joined with commas.
pub open spec fn events_json_list(evs: Seq<Event>) -> Seq<char>
    decreases evs.len(),
{
    if evs.len() == 0 {
        Seq::empty()
    } else if evs.len() == 1 {
        event_json(evs[0])
    } else {
        event_json(evs[0]) + ","@ + events_json_list(evs.drop_first())
    }
}

proof fn lemma_events_json_push(evs: Seq<Event>, e: Event)
    requires
        evs.len() >= 1,
    ensures
        events_json_list(evs.push(e)) == events_json_list(evs) + ","@ + event_json(e),
    decreases evs.len(),
{
    if evs.len() == 1 {
        assert(evs.push(e)[0] == evs[0]);
        assert(evs.push(e).drop_first() =~= seq![e]);
        assert(events_json_list(seq![e]) == event_json(e));
    } else {
        assert(evs.push(e).drop_first() =~= evs.drop_first().push(e));
        lemma_events_json_push(evs.drop_first(), e);
        assert(evs.push(e)[0] == evs[0]);
        assert(event_json(evs[0]) + ","@ + (events_json_list(evs.drop_first()) + ","@ + event_json(
            e,
        )) =~= (event_json(evs[0]) + ","@ + events_json_list(evs.drop_first())) + ","@ + event_json(
            e,
        ));
    }
}

/// The JSON body carrying a list of events.
pub open spec fn events_body(evs: Seq<Event>) -> Seq<char> {
    "{\"events\": ["@ + events_json_list(evs) + "]}"@
}

/// Writes the event-list body for the given records, in their order.
pub fn build_events_body(v: &Vec<Event>) -> (r: String)
    ensures
        r@ == events_body(v@),
{
    let mut r = String::from_str("{\"events\": [");
    let mut i: usize = 0;
    proof {
        assert(v@.subrange(0, 0) =~= Seq::<Event>::empty());
    }
    while i < v.len()
        invariant
            0 <= i <= v@.len(),
            r@ == "{\"events\": ["@ + events_json_list(v@.subrange(0, i as int)),
        decreases v@.len() - i,
    {
        proof {
            assert(v@.subrange(0, i + 1) =~= v@.subrange(0, i as int).push(v@[i as int]));
            if i >= 1 {
                lemma_events_json_push(v@.subrange(0, i as int), v@[i as int]);
            } else {
                assert(events_json_list(seq![v@[0]]) == event_json(v@[0]));
            }
        }
        if i > 0 {
            r.append(",");
        }
        let ej = event_json_exec(&v[i]);
        r.append(ej.as_str());
        proof {
            assert(r@ =~= "{\"events\": ["@ + events_json_list(v@.subrange(0, i + 1)));
        }
        i += 1;
    }
    r.append("]}");
    proof {
        assert(v@.subrange(0, v@.len() as int) =~= v@);
        assert(r@ =~= events_body(v@));
    }
    r
}

/// The JSON record shape of one user.
pub open spec fn user_json(u: User) -> Seq<char> {
    "{\"id\": "@ + dec_chars_of(u.id as nat) + ", \"name\": \""@ + escape_json_chars(u.name@)
        + "\", \"email\": \""@ + escape_json_chars(u.email@) + "\", \"age\": "@ + dec_chars_of(
        u.age as nat,
    ) + ", \"firebaseUid\": \""@ + escape_json_chars(u.subject@) + "\"}"@
}

/// One user written as their JSON record.
pub fn user_json_exec(u: &User) -> (r: String)
    ensures
        r@ == user_json(*u),
{
    let mut r = String::from_str("{\"id\": ");
    let id = u64_to_string(u.id);
    r.append(id.as_str());
    r.append(", \"name\": \"");
    let name = escape_json(u.name.as_str());
    r.append(name.as_str());
    r.append("\", \"email\": \"");
    let email = escape_json(u.email.as_str());
    r.append(email.as_str());
    r.append("\", \"age\": ");
    let age = u64_to_string(u.age);
    r.append(age.as_str());
    r.append(", \"firebaseUid\": \"");
    let subject = escape_json(u.subject.as_str());
    r.append(subject.as_str());
    r.append("\"}");
    proof {
        assert(r@ =~= user_json(*u));
    }
    r
}

/// The recognized endpoints, plus the default bucket for everything else.
#[derive(Clone, Copy, PartialEq, Eq, Structural)]
pub enum Route {
    ListEvents,
    GetEvent,
    MyEvents,
    Register,
    Me,
    AddEvent,
    DeleteEvent,
    Unknown,
}

/// The path up to the first `'?'`.
pub open spec fn base_of(path: Seq<char>) -> Seq<char> {
    split_on(path, '?')[0]
}

/// The query string between the first and second `'?'`, if a `'?'` is there.
pub open spec fn query_of(path: Seq<char>) -> Option<Seq<char>> {
    let parts = split_on(path, '?');
    if parts.len() >= 2 {
        Some(parts[1])
    } else {
        None
    }
}

/// Where a path is dispatched: exact matches, plus one prefix rule for the
/// single-event endpoint.
pub open spec fn route_of(path: Seq<char>) -> Route {
    let base = base_of(path);
    if base == "/api/events"@ {
        Route::ListEvents
    } else if is_prefix_of("/api/event/"@, base) {
        Route::GetEvent
    } else if base == "/api/my-events"@ {
        Route::MyEvents
    } else if base == "/api/auth/register"@ {
        Route::Register
    } else if base == "/api/auth/me"@ {
        Route::Me
    } else if base == "/api/add-event"@ {
        Route::AddEvent
    } else if base == "/api/delete-event"@ {
        Route::DeleteEvent
    } else {
        Route::Unknown
    }
}

/// The two endpoints served without authentication.
pub open spec fn route_is_public(r: Route) -> bool {
    r == Route::ListEvents || r == Route::GetEvent
}

/// Splits a raw path into the part before the first `'?'` and the query
/// string after it.
pub fn split_path(path: &str) -> (r: (String, Option<String>))
    ensures
        r.0@ == base_of(path@),
        opt_str_view(r.1) == query_of(path@),
{
    let n = path.unicode_len();
    let q1 = find_char(path, '?', 0, n);
    match q1 {
        None => {
            proof {
                lemma_split_no_sep(path@, '?');
                assert(path@.subrange(0, n as int) =~= path@);
            }
            (String::from_str(path.substring_char(0, n)), None)
        },
        Some(a) => {
            proof {
                lemma_split_at_first(path@, '?', a as int);
                lemma_split_len_ge_1(path@.skip(a + 1), '?');
            }
            let ghost tail = path@.skip(a + 1);
            proof {
                assert(forall|j: int| 0 <= j < tail.len() ==> tail[j] == path@[a + 1 + j]);
            }
            let q2 = find_char(path, '?', a + 1, n);
            let qend = match q2 {
                Some(b) => b,
                None => n,
            };
            proof {
                match q2 {
                    Some(b) => {
                        assert(tail[b - a - 1] == '?');
                        lemma_split_at_first(tail, '?', b - a - 1);
                        assert(tail.subrange(0, b - a - 1) =~= path@.subrange(a + 1, b as int));
                    },
                    None => {
                        lemma_split_no_sep(tail, '?');
                        assert(tail =~= path@.subrange(a + 1, n as int));
                    },
                }
                assert(split_on(path@, '?')[1] == split_on(tail, '?')[0]);
                assert(split_on(tail, '?')[0] =~= path@.subrange(a + 1, qend as int));
            }
            let base = String::from_str(path.substring_char(0, a));
            let qs = String::from_str(path.substring_char(a + 1, qend));
            (base, Some(qs))
        },
    }
}

/// Recognizes the route of a raw path.
pub fn route_of_path(base: &str) -> (r: Route)
    ensures
        forall|p: Seq<char>| base_of(p) == base@ ==> r == route_of(p),
{
    if str_eq(base, "/api/events") {
        Route::ListEvents
    } else if str_has_prefix(base, "/api/event/") {
        Route::GetEvent
    } else if str_eq(base, "/api/my-events") {
        Route::MyEvents
    } else if str_eq(base, "/api/auth/register") {
        Route::Register
    } else if str_eq(base, "/api/auth/me") {
        Route::Me
    } else if str_eq(base, "/api/add-event") {
        Route::AddEvent
    } else if str_eq(base, "/api/delete-event") {
        Route::DeleteEvent
    } else {
        Route::Unknown
    }
}

/// A parameter looked up in an optional query string: the last value written
/// under the key.
pub open spec fn qparam(q: Option<Seq<char>>, k: Seq<char>) -> Option<Seq<char>> {
    match q {
        Some(qq) => lookup_pairs(query_pairs(qq), k),
        None => None,
    }
}

/// A parameter that defaults to the empty string when absent.
pub open spec fn qparam_or_empty(q: Option<Seq<char>>, k: Seq<char>) -> Seq<char> {
    match qparam(q, k) {
        Some(v) => v,
        None => Seq::empty(),
    }
}

/// An application-level failure: an error body at success status.
pub open spec fn app_error_response(msg: Seq<char>) -> Seq<char> {
    http_response(HttpStatus::Success, error_body(msg))
}

/// The one authentication-failure outcome: 401 with the reason.
pub open spec fn unauthorized_response(e: AuthError) -> Seq<char> {
    http_response(HttpStatus::Unauthorized, error_body(auth_error_msg(e)))
}

/// The identifier text of a single-event path: what follows the prefix.
pub open spec fn id_text_of_base(base: Seq<char>) -> Seq<char> {
    base.skip("/api/event/"@.len() as int)
}

/// The identifier text of a single-event path.
pub open spec fn event_id_text(path: Seq<char>) -> Seq<char> {
    id_text_of_base(base_of(path))
}

/// The age registered from the query: an absent or unparsable value counts
/// as zero.
pub open spec fn reg_age_q(q: Option<Seq<char>>) -> u64 {
    match qparam(q, "age"@) {
        Some(a) => if is_valid_u64(a) {
            dec_val_of(a) as u64
        } else {
            0
        },
        None => 0,
    }
}

/// The email registered: the query value, else the verified claim email,
/// else a placeholder.
pub open spec fn reg_email_q(q: Option<Seq<char>>, c: Claims) -> Seq<char> {
    match qparam(q, "email"@) {
        Some(e) => e,
        None => match c.email {
            Some(ce) => ce@,
            None => "no-email"@,
        },
    }
}

/// Registration would collide with an existing user's subject id or email.
pub open spec fn reg_dup_q(q: Option<Seq<char>>, c: Claims, users: Seq<User>) -> bool {
    exists|k: int|
        0 <= k < users.len() && (users[k].subject@ == c.subject@ || users[k].email@ == reg_email_q(
            q,
            c,
        ))
}

/// Writes the 401 response for a failed authentication.
fn unauthorized_exec(e: AuthError) -> (r: String)
    ensures
        r@ == unauthorized_response(e),
{
    let body = make_error_body(auth_error_message(e));
    create_json_response(body.as_str(), HttpStatus::Unauthorized)
}

/// Under unique subjects, the found index is the user the subject names.
proof fn lemma_subject_unique(users: Seq<User>, sub: Seq<char>, i: int)
    requires
        0 <= i < users.len(),
        users[i].subject@ == sub,
        forall|k: int, l: int| 0 <= k < l < users.len() ==> users[k].subject@ != users[l].subject@,
    ensures
        has_subject(users, sub),
        subject_user(users, sub) == users[i],
{
    let k = choose|k: int| 0 <= k < users.len() && users[k].subject@ == sub;
    if k != i {
        if k < i {
            assert(users[k].subject@ != users[i].subject@);
        } else {
            assert(users[i].subject@ != users[k].subject@);
        }
    }
}

/// Under strictly ascending identifiers, the found index is the event the
/// identifier names.
proof fn lemma_event_uid_unique(evs: Seq<Event>, uid: u64, i: int)
    requires
        0 <= i < evs.len(),
        evs[i].uid == uid,
        forall|k: int, l: int| 0 <= k < l < evs.len() ==> evs[k].uid < evs[l].uid,
    ensures
        has_event_uid(evs, uid),
        event_at_uid(evs, uid) == evs[i],
{
    let k = choose|k: int| 0 <= k < evs.len() && evs[k].uid == uid;
    if k != i {
        if k < i {
            assert(evs[k].uid < evs[i].uid);
        } else {
            assert(evs[i].uid < evs[k].uid);
        }
    }
}

/// Serves the public single-event endpoint: the identifier after the prefix
/// names the record to write back; a bad or unknown identifier answers with
/// an error body at success status.
pub fn handle_get_event(base: &String, store: &mut Store) -> (r: String)
    requires
        old(store).wf(),
        is_prefix_of("/api/event/"@, base@),
    ensures
        *final(store) == *old(store),
        !is_valid_u64(id_text_of_base(base@)) ==> r@ == app_error_response("UID invalido"@),
        is_valid_u64(id_text_of_base(base@)) && !has_event_uid(
            old(store).events@,
            dec_val_of(id_text_of_base(base@)) as u64,
        ) ==> r@ == app_error_response("Evento non trovato"@),
        is_valid_u64(id_text_of_base(base@)) && has_event_uid(
            old(store).events@,
            dec_val_of(id_text_of_base(base@)) as u64,
        ) ==> r@ == http_response(
            HttpStatus::Success,
            event_json(event_at_uid(old(store).events@, dec_val_of(id_text_of_base(base@)) as u64)),
        ),
{
    proof {
        reveal_strlit("/api/event/");
    }
    let blen = base.as_str().unicode_len();
    let idstr = base.as_str().substring_char(11, blen);
    proof {
        assert(idstr@ =~= id_text_of_base(base@));
    }
    match parse_u64(idstr) {
        None => {
            let body = make_error_body("UID invalido");
            create_json_response(body.as_str(), HttpStatus::Success)
        },
        Some(uid) => {
            match store.find_event_by_uid(uid) {
                None => {
                    let body = make_error_body("Evento non trovato");
                    create_json_response(body.as_str(), HttpStatus::Success)
                },
                Some(ei) => {
                    proof {
                        lemma_event_uid_unique(store.events@, uid, ei as int);
                    }
                    let body = event_json_exec(&store.events[ei]);
                    create_json_response(body.as_str(), HttpStatus::Success)
                },
            }
        },
    }
}

/// Serves the caller's own event list, newest first.
pub fn handle_my_events(claims: &Claims, store: &mut Store) -> (r: String)
    requires
        old(store).wf(),
    ensures
        *final(store) == *old(store),
        !has_subject(old(store).users@, claims.subject@) ==> r@ == app_error_response(
            "Utente non trovato"@,
        ),
        has_subject(old(store).users@, claims.subject@) ==> r@ == http_response(
            HttpStatus::Success,
            events_body(
                events_of_owner(
                    old(store).events@,
                    subject_user(old(store).users@, claims.subject@).id,
                ).reverse(),
            ),
        ),
{
    match store.find_user_by_subject(claims.subject.as_str()) {
        None => {
            let body = make_error_body("Utente non trovato");
            create_json_response(body.as_str(), HttpStatus::Success)
        },
        Some(ui) => {
            proof {
                lemma_subject_unique(store.users@, claims.subject@, ui as int);
            }
            let owner = store.users[ui].id;
            let v = store.list_events_by_owner(owner);
            let body = build_events_body(&v);
            create_json_response(body.as_str(), HttpStatus::Success)
        },
    }
}

/// Serves the caller's own record.
pub fn handle_me(claims: &Claims, store: &mut Store) -> (r: String)
    requires
        old(store).wf(),
    ensures
        *final(store) == *old(store),
        !has_subject(old(store).users@, claims.subject@) ==> r@ == app_error_response(
            "Utente non trovato"@,
        ),
        has_subject(old(store).users@, claims.subject@) ==> r@ == http_response(
            HttpStatus::Success,
            user_json(subject_user(old(store).users@, claims.subject@)),
        ),
{
    match store.find_user_by_subject(claims.subject.as_str()) {
        None => {
            let body = make_error_body("Utente non trovato");
            create_json_response(body.as_str(), HttpStatus::Success)
        },
        Some(ui) => {
            proof {
                lemma_subject_unique(store.users@, claims.subject@, ui as int);
            }
            let body = user_json_exec(&store.users[ui]);
            create_json_response(body.as_str(), HttpStatus::Success)
        },
    }
}

/// Registers the verified caller: the name comes from the query, the age
/// falls back to zero, the email falls back to the claim email and then to a
/// placeholder. A taken subject id or email refuses the registration and
/// leaves the store unchanged.
pub fn handle_register(
    claims: &Claims,
    qopt: &Option<String>,
    store: &mut Store,
    now: u64,
) -> (r: String)
    requires
        old(store).wf(),
        old(store).next_user_id < u64::MAX,
    ensures
        final(store).wf(),
        opt_str_view(*qopt) is None ==> r@ == app_error_response("Query string richiesta"@)
            && *final(store) == *old(store),
        opt_str_view(*qopt) is Some && qparam(opt_str_view(*qopt), "name"@) is None ==> r@
            == app_error_response("Nome richiesto"@) && *final(store) == *old(store),
        opt_str_view(*qopt) is Some && qparam(opt_str_view(*qopt), "name"@) is Some && reg_dup_q(
            opt_str_view(*qopt),
            *claims,
            old(store).users@,
        ) ==> r@ == app_error_response("Utente gia registrato"@) && *final(store) == *old(store),
        opt_str_view(*qopt) is Some && qparam(opt_str_view(*qopt), "name"@) is Some && !reg_dup_q(
            opt_str_view(*qopt),
            *claims,
            old(store).users@,
        ) ==> r@ == http_response(HttpStatus::Success, success_body("Utente registrato"@)) && final(store).users@.len() == old(store).users@.len() + 1 && final(store).users@.subrange(
            0,
            old(store).users@.len() as int,
        ) == old(store).users@ && final(store).users@.last().id == old(store).next_user_id && final(store).users@.last().name@ == qparam(opt_str_view(*qopt), "name"@)->Some_0 && final(store).users@.last().email@ == reg_email_q(opt_str_view(*qopt), *claims) && final(store).users@.last().age == reg_age_q(opt_str_view(*qopt)) && final(store).users@.last().subject@
            == claims.subject@ && final(store).users@.last().created_at == now && final(store).next_user_id == old(store).next_user_id + 1 && final(store).events@ == old(store).events@
            && final(store).next_event_uid == old(store).next_event_uid,
{
    match qopt {
        None => {
            let body = make_error_body("Query string richiesta");
            create_json_response(body.as_str(), HttpStatus::Success)
        },
        Some(q) => {
            let params = parse_query(q.as_str());
            match get_param(&params, "name") {
                None => {
                    let body = make_error_body("Nome richiesto");
                    create_json_response(body.as_str(), HttpStatus::Success)
                },
                Some(name) => {
                    let age: u64 = match get_param(&params, "age") {
                        Some(a) => match parse_u64(a.as_str()) {
                            Some(v) => v,
                            None => 0,
                        },
                        None => 0,
                    };
                    let email: String = match get_param(&params, "email") {
                        Some(e) => e,
                        None => match &claims.email {
                            Some(ce) => ce.clone(),
                            None => String::from_str("no-email"),
                        },
                    };
                    let subject = claims.subject.clone();
                    let ghost qv = opt_str_view(*qopt);
                    let ghost emailv = email@;
                    let ghost users0 = store.users@;
                    proof {
                        assert(emailv == reg_email_q(qv, *claims));
                    }
                    match store.insert_user(name, email, age, subject, now) {
                        Err(_) => {
                            proof {
                                let k = choose|k: int|
                                    0 <= k < users0.len() && (users0[k].subject@
                                        == claims.subject@ || users0[k].email@ == emailv);
                                assert(users0[k].subject@ == claims.subject@ || users0[k].email@
                                    == reg_email_q(qv, *claims));
                                assert(reg_dup_q(qv, *claims, users0));
                            }
                            let body = make_error_body("Utente gia registrato");
                            create_json_response(body.as_str(), HttpStatus::Success)
                        },
                        Ok(_) => {
                            proof {
                                if reg_dup_q(qv, *claims, users0) {
                                    let k = choose|k: int|
                                        0 <= k < users0.len() && (users0[k].subject@
                                            == claims.subject@ || users0[k].email@ == reg_email_q(
                                            qv,
                                            *claims,
                                        ));
                                    assert(users0[k].subject@ == claims.subject@ || users0[k].email@
                                        == emailv);
                                }
                            }
                            let body = make_success_body("Utente registrato");
                            create_json_response(body.as_str(), HttpStatus::Success)
                        },
                    }
                },
            }
        },
    }
}

/// Adds an event attributed to the verified caller; title, date and location
/// are required, the rest defaults to empty.
pub fn handle_add_event(
    claims: &Claims,
    qopt: &Option<String>,
    store: &mut Store,
    now: u64,
) -> (r: String)
    requires
        old(store).wf(),
        old(store).next_event_uid < u64::MAX,
    ensures
        final(store).wf(),
        !has_subject(old(store).users@, claims.subject@) ==> r@ == app_error_response(
            "Utente non trovato"@,
        ) && *final(store) == *old(store),
        has_subject(old(store).users@, claims.subject@) && opt_str_view(*qopt) is None ==> r@
            == app_error_response("Query string richiesta"@) && *final(store) == *old(store),
        has_subject(old(store).users@, claims.subject@) && opt_str_view(*qopt) is Some && (qparam(
            opt_str_view(*qopt),
            "title"@,
        ) is None || qparam(opt_str_view(*qopt), "date"@) is None || qparam(
            opt_str_view(*qopt),
            "location"@,
        ) is None) ==> r@ == app_error_response("Parametri mancanti (title, date, location)"@)
            && *final(store) == *old(store),
        has_subject(old(store).users@, claims.subject@) && opt_str_view(*qopt) is Some && qparam(
            opt_str_view(*qopt),
            "title"@,
        ) is Some && qparam(opt_str_view(*qopt), "date"@) is Some && qparam(
            opt_str_view(*qopt),
            "location"@,
        ) is Some ==> r@ == http_response(HttpStatus::Success, success_body("Evento aggiunto"@))
            && final(store).events@.len() == old(store).events@.len() + 1 && final(store).events@.subrange(0, old(store).events@.len() as int) == old(store).events@ && final(store).events@.last().uid == old(store).next_event_uid && final(store).events@.last().title@
            == qparam(opt_str_view(*qopt), "title"@)->Some_0 && final(store).events@.last().description@ == qparam_or_empty(opt_str_view(*qopt), "description"@)
            && final(store).events@.last().date@ == qparam(opt_str_view(*qopt), "date"@)->Some_0
            && final(store).events@.last().location@ == qparam(
            opt_str_view(*qopt),
            "location"@,
        )->Some_0 && final(store).events@.last().image_url@ == qparam_or_empty(
            opt_str_view(*qopt),
            "imageUrl"@,
        ) && final(store).events@.last().map_position@ == Seq::<char>::empty() && final(store).events@.last().owner == subject_user(old(store).users@, claims.subject@).id && final(store).events@.last().created_at == now && final(store).next_event_uid == old(store).next_event_uid + 1 && final(store).users@ == old(store).users@ && final(store).next_user_id == old(store).next_user_id,
{
    match store.find_user_by_subject(claims.subject.as_str()) {
        None => {
            let body = make_error_body("Utente non trovato");
            create_json_response(body.as_str(), HttpStatus::Success)
        },
        Some(ui) => {
            proof {
                lemma_subject_unique(store.users@, claims.subject@, ui as int);
            }
            let owner = store.users[ui].id;
            match qopt {
                None => {
                    let body = make_error_body("Query string richiesta");
                    create_json_response(body.as_str(), HttpStatus::Success)
                },
                Some(q) => {
                    let params = parse_query(q.as_str());
                    let title_p = get_param(&params, "title");
                    let date_p = get_param(&params, "date");
                    let location_p = get_param(&params, "location");
                    if title_p.is_none() || date_p.is_none() || location_p.is_none() {
                        let body = make_error_body("Parametri mancanti (title, date, location)");
                        create_json_response(body.as_str(), HttpStatus::Success)
                    } else {
                        let title = title_p.unwrap();
                        let date = date_p.unwrap();
                        let location = location_p.unwrap();
                        let description: String = match get_param(&params, "description") {
                            Some(d) => d,
                            None => String::new(),
                        };
                        let image_url: String = match get_param(&params, "imageUrl") {
                            Some(u) => u,
                            None => String::new(),
                        };
                        proof {
                            assert(user_id_exists(store.users@, owner));
                        }
                        store.insert_event(
                            title,
                            description,
                            date,
                            location,
                            image_url,
                            String::new(),
                            owner,
                            now,
                        );
                        let body = make_success_body("Evento aggiunto");
                        create_json_response(body.as_str(), HttpStatus::Success)
                    }
                },
            }
        },
    }
}

/// Deletes an event: only the owner may, and a refused deletion leaves the
/// store untouched.
pub fn handle_delete_event(
    claims: &Claims,
    qopt: &Option<String>,
    store: &mut Store,
) -> (r: String)
    requires
        old(store).wf(),
    ensures
        final(store).wf(),
        !has_subject(old(store).users@, claims.subject@) ==> r@ == app_error_response(
            "Utente non trovato"@,
        ) && *final(store) == *old(store),
        has_subject(old(store).users@, claims.subject@) && opt_str_view(*qopt) is None ==> r@
            == app_error_response("Query string richiesta"@) && *final(store) == *old(store),
        has_subject(old(store).users@, claims.subject@) && opt_str_view(*qopt) is Some && qparam(
            opt_str_view(*qopt),
            "uid"@,
        ) is None ==> r@ == app_error_response("UID richiesto"@) && *final(store) == *old(store),
        has_subject(old(store).users@, claims.subject@) && opt_str_view(*qopt) is Some && qparam(
            opt_str_view(*qopt),
            "uid"@,
        ) is Some && !is_valid_u64(qparam(opt_str_view(*qopt), "uid"@)->Some_0) ==> r@
            == app_error_response("UID invalido"@) && *final(store) == *old(store),
        has_subject(old(store).users@, claims.subject@) && opt_str_view(*qopt) is Some && qparam(
            opt_str_view(*qopt),
            "uid"@,
        ) is Some && is_valid_u64(qparam(opt_str_view(*qopt), "uid"@)->Some_0) && !has_event_uid(
            old(store).events@,
            dec_val_of(qparam(opt_str_view(*qopt), "uid"@)->Some_0) as u64,
        ) ==> r@ == app_error_response("Evento non trovato"@) && *final(store) == *old(store),
        has_subject(old(store).users@, claims.subject@) && opt_str_view(*qopt) is Some && qparam(
            opt_str_view(*qopt),
            "uid"@,
        ) is Some && is_valid_u64(qparam(opt_str_view(*qopt), "uid"@)->Some_0) && has_event_uid(
            old(store).events@,
            dec_val_of(qparam(opt_str_view(*qopt), "uid"@)->Some_0) as u64,
        ) && event_at_uid(
            old(store).events@,
            dec_val_of(qparam(opt_str_view(*qopt), "uid"@)->Some_0) as u64,
        ).owner != subject_user(old(store).users@, claims.subject@).id ==> r@ == http_response(
            HttpStatus::Forbidden,
            error_body("Non sei il proprietario di questo evento"@),
        ) && *final(store) == *old(store),
        has_subject(old(store).users@, claims.subject@) && opt_str_view(*qopt) is Some && qparam(
            opt_str_view(*qopt),
            "uid"@,
        ) is Some && is_valid_u64(qparam(opt_str_view(*qopt), "uid"@)->Some_0) && has_event_uid(
            old(store).events@,
            dec_val_of(qparam(opt_str_view(*qopt), "uid"@)->Some_0) as u64,
        ) && event_at_uid(
            old(store).events@,
            dec_val_of(qparam(opt_str_view(*qopt), "uid"@)->Some_0) as u64,
        ).owner == subject_user(old(store).users@, claims.subject@).id ==> r@ == http_response(
            HttpStatus::Success,
            success_body("Evento eliminato"@),
        ) && final(store).events@ == events_without(
            old(store).events@,
            dec_val_of(qparam(opt_str_view(*qopt), "uid"@)->Some_0) as u64,
        ) && final(store).users@ == old(store).users@ && final(store).next_user_id == old(store).next_user_id && final(store).next_event_uid == old(store).next_event_uid,
{
    match store.find_user_by_subject(claims.subject.as_str()) {
        None => {
            let body = make_error_body("Utente non trovato");
            create_json_response(body.as_str(), HttpStatus::Success)
        },
        Some(ui) => {
            proof {
                lemma_subject_unique(store.users@, claims.subject@, ui as int);
            }
            let caller_id = store.users[ui].id;
            match qopt {
                None => {
                    let body = make_error_body("Query string richiesta");
                    create_json_response(body.as_str(), HttpStatus::Success)
                },
                Some(q) => {
                    let params = parse_query(q.as_str());
                    match get_param(&params, "uid") {
                        None => {
                            let body = make_error_body("UID richiesto");
                            create_json_response(body.as_str(), HttpStatus::Success)
                        },
                        Some(uid_str) => {
                            match parse_u64(uid_str.as_str()) {
                                None => {
                                    let body = make_error_body("UID invalido");
                                    create_json_response(body.as_str(), HttpStatus::Success)
                                },
                                Some(uid) => {
                                    match store.find_event_by_uid(uid) {
                                        None => {
                                            let body = make_error_body("Evento non trovato");
                                            create_json_response(body.as_str(), HttpStatus::Success)
                                        },
                                        Some(ei) => {
                                            proof {
                                                lemma_event_uid_unique(
                                                    store.events@,
                                                    uid,
                                                    ei as int,
                                                );
                                            }
                                            if store.events[ei].owner != caller_id {
                                                let body = make_error_body(
                                                    "Non sei il proprietario di questo evento",
                                                );
                                                create_json_response(
                                                    body.as_str(),
                                                    HttpStatus::Forbidden,
                                                )
                                            } else {
                                                store.delete_event_by_uid(uid);
                                                let body = make_success_body("Evento eliminato");
                                                create_json_response(
                                                    body.as_str(),
                                                    HttpStatus::Success,
                                                )
                                            }
                                        },
                                    }
                                },
                            }
                        },
                    }
                },
            }
        },
    }
}

/// Law: a failed authentication answers a 401-class response, never a
/// success one — whatever the reason and whatever any success body holds.
pub proof fn lemma_unauthorized_never_success(e: AuthError, body: Seq<char>)
    ensures
        unauthorized_response(e) != http_response(HttpStatus::Success, body),
{
    reveal_strlit("HTTP/1.1 401 Unauthorized");
    reveal_strlit("HTTP/1.1 200 OK");
    let u = unauthorized_response(e);
    let s = http_response(HttpStatus::Success, body);
    assert(u[9] == '4');
    assert(s[9] == '2');
}

/// Law: a refused ownership check answers a 403-class response, never a
/// success one.
pub proof fn lemma_forbidden_never_success(msg: Seq<char>, body: Seq<char>)
    ensures
        http_response(HttpStatus::Forbidden, error_body(msg)) != http_response(
            HttpStatus::Success,
            body,
        ),
{
    reveal_strlit("HTTP/1.1 403 Forbidden");
    reveal_strlit("HTTP/1.1 200 OK");
    let f = http_response(HttpStatus::Forbidden, error_body(msg));
    let s = http_response(HttpStatus::Success, body);
    assert(f[9] == '4');
    assert(s[9] == '2');
}

/// Serves one request: routes the path, gates every non-public route behind
/// the authentication outcome, and runs the endpoint's handler against the
/// store. Each clause pins the response text and the store for one case of
/// one endpoint; together they cover every path, every authentication
/// outcome and every store.
pub fn handle_request(
    path: &str,
    auth: &Result<Claims, AuthError>,
    store: &mut Store,
    now: u64,
) -> (r: String)
    requires
        old(store).wf(),
        old(store).next_user_id < u64::MAX,
        old(store).next_event_uid < u64::MAX,
    ensures
        final(store).wf(),
        // The public event list: every stored event, newest first.
        route_of(path@) == Route::ListEvents ==> r@ == http_response(
            HttpStatus::Success,
            events_body(old(store).events@.reverse()),
        ) && *final(store) == *old(store),
        // The public single event, by the identifier after the prefix.
        route_of(path@) == Route::GetEvent ==> *final(store) == *old(store),
        route_of(path@) == Route::GetEvent && !is_valid_u64(event_id_text(path@)) ==> r@
            == app_error_response("UID invalido"@),
        route_of(path@) == Route::GetEvent && is_valid_u64(event_id_text(path@)) && !has_event_uid(
            old(store).events@,
            dec_val_of(event_id_text(path@)) as u64,
        ) ==> r@ == app_error_response("Evento non trovato"@),
        route_of(path@) == Route::GetEvent && is_valid_u64(event_id_text(path@)) && has_event_uid(
            old(store).events@,
            dec_val_of(event_id_text(path@)) as u64,
        ) ==> r@ == http_response(
            HttpStatus::Success,
            event_json(event_at_uid(old(store).events@, dec_val_of(event_id_text(path@)) as u64)),
        ),
        // Every non-public route, the unrecognized ones included, answers 401
        // when authentication failed, before any handler logic runs.
        !route_is_public(route_of(path@)) && auth is Err ==> r@ == unauthorized_response(
            auth->Err_0,
        ) && *final(store) == *old(store),
        // An unrecognized path, authenticated: not found, at success status.
        route_of(path@) == Route::Unknown && auth is Ok ==> r@ == app_error_response(
            "Endpoint non trovato"@,
        ) && *final(store) == *old(store),
        // The caller's own events.
        route_of(path@) == Route::MyEvents && auth is Ok ==> *final(store) == *old(store),
        route_of(path@) == Route::MyEvents && auth is Ok && !has_subject(
            old(store).users@,
            auth->Ok_0.subject@,
        ) ==> r@ == app_error_response("Utente non trovato"@),
        route_of(path@) == Route::MyEvents && auth is Ok && has_subject(
            old(store).users@,
            auth->Ok_0.subject@,
        ) ==> r@ == http_response(
            HttpStatus::Success,
            events_body(
                events_of_owner(
                    old(store).events@,
                    subject_user(old(store).users@, auth->Ok_0.subject@).id,
                ).reverse(),
            ),
        ),
        // The caller's own record.
        route_of(path@) == Route::Me && auth is Ok ==> *final(store) == *old(store),
        route_of(path@) == Route::Me && auth is Ok && !has_subject(
            old(store).users@,
            auth->Ok_0.subject@,
        ) ==> r@ == app_error_response("Utente non trovato"@),
        route_of(path@) == Route::Me && auth is Ok && has_subject(
            old(store).users@,
            auth->Ok_0.subject@,
        ) ==> r@ == http_response(
            HttpStatus::Success,
            user_json(subject_user(old(store).users@, auth->Ok_0.subject@)),
        ),
        // Registration: the contract of `handle_register`, reached from the path.
        route_of(path@) == Route::Register && auth is Ok && query_of(path@) is None ==> r@
            == app_error_response("Query string richiesta"@) && *final(store) == *old(store),
        route_of(path@) == Route::Register && auth is Ok && query_of(path@) is Some && qparam(
            query_of(path@),
            "name"@,
        ) is None ==> r@ == app_error_response("Nome richiesto"@) && *final(store) == *old(store),
        route_of(path@) == Route::Register && auth is Ok && query_of(path@) is Some && qparam(
            query_of(path@),
            "name"@,
        ) is Some && reg_dup_q(query_of(path@), auth->Ok_0, old(store).users@) ==> r@
            == app_error_response("Utente gia registrato"@) && *final(store) == *old(store),
        route_of(path@) == Route::Register && auth is Ok && query_of(path@) is Some && qparam(
            query_of(path@),
            "name"@,
        ) is Some && !reg_dup_q(query_of(path@), auth->Ok_0, old(store).users@) ==> r@
            == http_response(HttpStatus::Success, success_body("Utente registrato"@)) && final(store).users@.len() == old(store).users@.len() + 1 && final(store).users@.subrange(
            0,
            old(store).users@.len() as int,
        ) == old(store).users@ && final(store).users@.last().id == old(store).next_user_id && final(store).users@.last().name@ == qparam(query_of(path@), "name"@)->Some_0 && final(store).users@.last().email@ == reg_email_q(query_of(path@), auth->Ok_0) && final(store).users@.last().age == reg_age_q(query_of(path@)) && final(store).users@.last().subject@
            == auth->Ok_0.subject@ && final(store).users@.last().created_at == now && final(store).next_user_id == old(store).next_user_id + 1 && final(store).events@ == old(store).events@
            && final(store).next_event_uid == old(store).next_event_uid,
        // Adding an event: the contract of `handle_add_event`.
        route_of(path@) == Route::AddEvent && auth is Ok && !has_subject(
            old(store).users@,
            auth->Ok_0.subject@,
        ) ==> r@ == app_error_response("Utente non trovato"@) && *final(store) == *old(store),
        route_of(path@) == Route::AddEvent && auth is Ok && has_subject(
            old(store).users@,
            auth->Ok_0.subject@,
        ) && query_of(path@) is None ==> r@ == app_error_response("Query string richiesta"@)
            && *final(store) == *old(store),
        route_of(path@) == Route::AddEvent && auth is Ok && has_subject(
            old(store).users@,
            auth->Ok_0.subject@,
        ) && query_of(path@) is Some && (qparam(query_of(path@), "title"@) is None || qparam(
            query_of(path@),
            "date"@,
        ) is None || qparam(query_of(path@), "location"@) is None) ==> r@ == app_error_response(
            "Parametri mancanti (title, date, location)"@,
        ) && *final(store) == *old(store),
        route_of(path@) == Route::AddEvent && auth is Ok && has_subject(
            old(store).users@,
            auth->Ok_0.subject@,
        ) && query_of(path@) is Some && qparam(query_of(path@), "title"@) is Some && qparam(
            query_of(path@),
            "date"@,
        ) is Some && qparam(query_of(path@), "location"@) is Some ==> r@ == http_response(
            HttpStatus::Success,
            success_body("Evento aggiunto"@),
        ) && final(store).events@.len() == old(store).events@.len() + 1 && final(store).events@.subrange(0, old(store).events@.len() as int) == old(store).events@ && final(store).events@.last().uid == old(store).next_event_uid && final(store).events@.last().title@
            == qparam(query_of(path@), "title"@)->Some_0 && final(store).events@.last().description@
            == qparam_or_empty(query_of(path@), "description"@) && final(store).events@.last().date@ == qparam(query_of(path@), "date"@)->Some_0 && final(store).events@.last().location@ == qparam(query_of(path@), "location"@)->Some_0 && final(store).events@.last().image_url@ == qparam_or_empty(query_of(path@), "imageUrl"@) && final(store).events@.last().map_position@ == Seq::<char>::empty() && final(store).events@.last().owner
            == subject_user(old(store).users@, auth->Ok_0.subject@).id && final(store).events@.last().created_at == now && final(store).next_event_uid == old(store).next_event_uid + 1 && final(store).users@ == old(store).users@ && final(store).next_user_id == old(store).next_user_id,
        // Deleting an event: the contract of `handle_delete_event`.
        route_of(path@) == Route::DeleteEvent && auth is Ok && !has_subject(
            old(store).users@,
            auth->Ok_0.subject@,
        ) ==> r@ == app_error_response("Utente non trovato"@) && *final(store) == *old(store),
        route_of(path@) == Route::DeleteEvent && auth is Ok && has_subject(
            old(store).users@,
            auth->Ok_0.subject@,
        ) && query_of(path@) is None ==> r@ == app_error_response("Query string richiesta"@)
            && *final(store) == *old(store),
        route_of(path@) == Route::DeleteEvent && auth is Ok && has_subject(
            old(store).users@,
            auth->Ok_0.subject@,
        ) && query_of(path@) is Some && qparam(query_of(path@), "uid"@) is None ==> r@
            == app_error_response("UID richiesto"@) && *final(store) == *old(store),
        route_of(path@) == Route::DeleteEvent && auth is Ok && has_subject(
            old(store).users@,
            auth->Ok_0.subject@,
        ) && query_of(path@) is Some && qparam(query_of(path@), "uid"@) is Some && !is_valid_u64(
            qparam(query_of(path@), "uid"@)->Some_0,
        ) ==> r@ == app_error_response("UID invalido"@) && *final(store) == *old(store),
        route_of(path@) == Route::DeleteEvent && auth is Ok && has_subject(
            old(store).users@,
            auth->Ok_0.subject@,
        ) && query_of(path@) is Some && qparam(query_of(path@), "uid"@) is Some && is_valid_u64(
            qparam(query_of(path@), "uid"@)->Some_0,
        ) && !has_event_uid(
            old(store).events@,
            dec_val_of(qparam(query_of(path@), "uid"@)->Some_0) as u64,
        ) ==> r@ == app_error_response("Evento non trovato"@) && *final(store) == *old(store),
        // Ownership refused: 403, and the store is untouched.
        route_of(path@) == Route::DeleteEvent && auth is Ok && has_subject(
            old(store).users@,
            auth->Ok_0.subject@,
        ) && query_of(path@) is Some && qparam(query_of(path@), "uid"@) is Some && is_valid_u64(
            qparam(query_of(path@), "uid"@)->Some_0,
        ) && has_event_uid(
            old(store).events@,
            dec_val_of(qparam(query_of(path@), "uid"@)->Some_0) as u64,
        ) && event_at_uid(
            old(store).events@,
            dec_val_of(qparam(query_of(path@), "uid"@)->Some_0) as u64,
        ).owner != subject_user(old(store).users@, auth->Ok_0.subject@).id ==> r@ == http_response(
            HttpStatus::Forbidden,
            error_body("Non sei il proprietario di questo evento"@),
        ) && *final(store) == *old(store),
        // Ownership held: the event leaves the store, all else stays.
        route_of(path@) == Route::DeleteEvent && auth is Ok && has_subject(
            old(store).users@,
            auth->Ok_0.subject@,
        ) && query_of(path@) is Some && qparam(query_of(path@), "uid"@) is Some && is_valid_u64(
            qparam(query_of(path@), "uid"@)->Some_0,
        ) && has_event_uid(
            old(store).events@,
            dec_val_of(qparam(query_of(path@), "uid"@)->Some_0) as u64,
        ) && event_at_uid(
            old(store).events@,
            dec_val_of(qparam(query_of(path@), "uid"@)->Some_0) as u64,
        ).owner == subject_user(old(store).users@, auth->Ok_0.subject@).id ==> r@ == http_response(
            HttpStatus::Success,
            success_body("Evento eliminato"@),
        ) && final(store).events@ == events_without(
            old(store).events@,
            dec_val_of(qparam(query_of(path@), "uid"@)->Some_0) as u64,
        ) && final(store).users@ == old(store).users@ && final(store).next_user_id == old(store).next_user_id && final(store).next_event_uid == old(store).next_event_uid,
{
    let (base, qopt) = split_path(path);
    let route = route_of_path(base.as_str());
    proof {
        assert(route == route_of(path@));
    }
    match route {
        Route::ListEvents => {
            let v = store.list_all_events();
            let body = build_events_body(&v);
            create_json_response(body.as_str(), HttpStatus::Success)
        },
        Route::GetEvent => handle_get_event(&base, store),
        Route::MyEvents => {
            match auth {
                Err(e) => unauthorized_exec(*e),
                Ok(claims) => handle_my_events(claims, store),
            }
        },
        Route::Me => {
            match auth {
                Err(e) => unauthorized_exec(*e),
                Ok(claims) => handle_me(claims, store),
            }
        },
        Route::Register => {
            match auth {
                Err(e) => unauthorized_exec(*e),
                Ok(claims) => handle_register(claims, &qopt, store, now),
            }
        },
        Route::AddEvent => {
            match auth {
                Err(e) => unauthorized_exec(*e),
                Ok(claims) => handle_add_event(claims, &qopt, store, now),
            }
        },
        Route::DeleteEvent => {
            match auth {
                Err(e) => unauthorized_exec(*e),
                Ok(claims) => handle_delete_event(claims, &qopt, store),
            }
        },
        Route::Unknown => {
            match auth {
                Err(e) => unauthorized_exec(*e),
                Ok(_) => {
                    let body = make_error_body("Endpoint non trovato");
                    create_json_response(body.as_str(), HttpStatus::Success)
                },
            }
        },
    }
}

} // verus!
