use std::collections::HashMap;
use vstd::prelude::*;
use vstd::string::*;

verus! {

/// Identifies one running instance of the cluster.
pub struct ServerId(pub String);

/// Names a class of servers that share handlers and an addressing namespace.
pub struct ServerKind(pub String);

/// A cluster member as the discovery service describes it.
pub struct Server {
    pub id: ServerId,
    pub kind: ServerKind,
    pub hostname: String,
    pub frontend: bool,
    pub metadata: HashMap<String, String>,
}

/// The topic on which the instance `id` of kind `kind` receives requests.
pub open spec fn server_topic(kind: Seq<char>, id: Seq<char>) -> Seq<char> {
    "pitaya/"@ + ("servers/"@ + kind + "/"@ + id)
}

/// The topic of kind `kind` on which user `user` is told about `action`.
pub open spec fn user_topic(kind: Seq<char>, user: Seq<char>, action: Seq<char>) -> Seq<char> {
    "pitaya/"@ + (kind + "/user/"@ + user + "/"@ + action)
}

/// The topic on which servers of kind `kind` learn that user `user` must be dropped.
pub open spec fn kick_topic(user: Seq<char>, kind: Seq<char>) -> Seq<char> {
    user_topic(kind, user, "kick"@)
}

/// The topic on which servers of kind `kind` receive pushes for user `user`.
pub open spec fn push_topic(user: Seq<char>, kind: Seq<char>) -> Seq<char> {
    user_topic(kind, user, "push"@)
}

/// Builds the topic on which `server` receives requests.
pub fn topic_for_server(server: &Server) -> (r: String)
    ensures
        r@ == server_topic(server.kind.0@, server.id.0@),
{
    let mut t = String::from_str("pitaya/servers/");
    t.append(server.kind.0.as_str());
    t.append("/");
    t.append(server.id.0.as_str());
    proof {
        reveal_strlit("pitaya/servers/");
        reveal_strlit("pitaya/");
        reveal_strlit("servers/");
        reveal_strlit("/");
        assert(t@ =~= server_topic(server.kind.0@, server.id.0@));
    }
    t
}

fn user_action_topic(user_id: &str, server_kind: &ServerKind, action: &str) -> (r: String)
    ensures
        r@ == user_topic(server_kind.0@, user_id@, action@),
{
    let mut t = String::from_str("pitaya/");
    t.append(server_kind.0.as_str());
    t.append("/user/");
    t.append(user_id);
    t.append("/");
    t.append(action);
    proof {
        reveal_strlit("pitaya/");
        reveal_strlit("/user/");
        reveal_strlit("/");
        assert(t@ =~= user_topic(server_kind.0@, user_id@, action@));
    }
    t
}

/// Builds the topic on which servers of `server_kind` learn to drop `user_id`.
pub fn user_kick_topic(user_id: &str, server_kind: &ServerKind) -> (r: String)
    ensures
        r@ == kick_topic(user_id@, server_kind.0@),
{
    user_action_topic(user_id, server_kind, "kick")
}

/// Builds the topic on which servers of `server_kind` receive pushes for `user_id`.
pub fn user_messages_topic(user_id: &str, server_kind: &ServerKind) -> (r: String)
    ensures
        r@ == push_topic(user_id@, server_kind.0@),
{
    user_action_topic(user_id, server_kind, "push")
}

proof fn lemma_kind_repeats_prefix(k: Seq<char>, rest_a: Seq<char>, rest_b: Seq<char>, j: int)
    requires
        "servers/"@ + k + rest_a == k + rest_b,
        0 <= j < k.len(),
    ensures
        k[j] == "servers/"@[j % 8],
    decreases j,
{
    reveal_strlit("servers/");
    let x = "servers/"@ + k + rest_a;
    let y = k + rest_b;
    assert(x[j] == y[j]);
    assert(y[j] == k[j]);
    if j >= 8 {
        lemma_kind_repeats_prefix(k, rest_a, rest_b, j - 8);
        assert(x[j] == k[j - 8]);
        assert((j - 8) % 8 == j % 8);
    } else {
        assert(x[j] == "servers/"@[j]);
        assert(j % 8 == j);
    }
}

proof fn lemma_server_topic_not_user_topic(
    kind: Seq<char>,
    id: Seq<char>,
    user: Seq<char>,
    action: Seq<char>,
)
    ensures
        server_topic(kind, id) != user_topic(kind, user, action),
{
    reveal_strlit("pitaya/");
    reveal_strlit("servers/");
    reveal_strlit("/user/");
    reveal_strlit("/");
    let p = "servers/"@;
    let a = p + kind + ("/"@ + id);
    let b = kind + ("/user/"@ + user + "/"@ + action);
    assert(server_topic(kind, id) =~= "pitaya/"@ + a);
    assert(user_topic(kind, user, action) =~= "pitaya/"@ + b);
    if server_topic(kind, id) == user_topic(kind, user, action) {
        assert(a =~= ("pitaya/"@ + a).subrange(7, ("pitaya/"@ + a).len() as int));
        assert(b =~= ("pitaya/"@ + b).subrange(7, ("pitaya/"@ + b).len() as int));
        assert(a == b);
        let n = kind.len() as int;
        let rb = "/user/"@ + user + "/"@ + action;
        assert(p + kind + ("/"@ + id) == kind + rb);
        assert forall|j: int| 0 <= j < n implies kind[j] == p[j % 8] by {
            lemma_kind_repeats_prefix(kind, "/"@ + id, rb, j);
        }
        assert(a[n] == b[n]);
        assert(a[n + 1] == b[n + 1]);
        assert(b[n] == '/');
        assert(b[n + 1] == 'u');
        if n < 8 {
            assert(a[n] == p[n]);
        } else {
            assert(a[n] == kind[n - 8]);
            assert(kind[n - 8] == p[(n - 8) % 8]);
        }
        assert(n % 8 == 7);
        assert(a[n + 1] == kind[n - 7]);
        assert(kind[n - 7] == p[(n - 7) % 8]);
        assert((n - 7) % 8 == 0);
    }
}

/// Topics are fixed by their inputs alone, and for non-empty ids the push
/// topic, the kick topic and every request topic of the same kind are three
/// different strings.
pub proof fn lemma_topics_distinct(user: Seq<char>, kind: Seq<char>, id: Seq<char>)
    requires
        user.len() > 0,
        kind.len() > 0,
    ensures
        push_topic(user, kind) == push_topic(user, kind),
        kick_topic(user, kind) == kick_topic(user, kind),
        push_topic(user, kind) != kick_topic(user, kind),
        push_topic(user, kind) != server_topic(kind, id),
        kick_topic(user, kind) != server_topic(kind, id),
{
    reveal_strlit("push");
    reveal_strlit("kick");
    let pt = push_topic(user, kind);
    let kt = kick_topic(user, kind);
    assert(pt.len() == kt.len());
    assert(pt[pt.len() - 1] == 'h');
    assert(kt[kt.len() - 1] == 'k');
    lemma_server_topic_not_user_topic(kind, id, user, "push"@);
    lemma_server_topic_not_user_topic(kind, id, user, "kick"@);
}

} // verus!
