//! The MQTT topics that this service and Home Assistant meet on.
use crate::device::Device;
use vstd::prelude::*;

verus! {

/// The characters that have no place in an identifier.
pub open spec fn is_unsafe(c: char) -> bool {
    c == ':' || c == ' ' || c == '\\' || c == '/' || c == '\'' || c == '"'
}

/// A text with an underscore in place of each unsafe character.
pub open spec fn safe_text(s: Seq<char>) -> Seq<char> {
    Seq::new(
        s.len(),
        |i: int|
            if is_unsafe(s[i]) {
                '_'
            } else {
                s[i]
            },
    )
}

/// A device id without its colons and spaces.
pub open spec fn safe_id(id: Seq<char>) -> Seq<char> {
    id.filter(|c: char| c != ':' && c != ' ')
}

/// The topic on which the events of one capability of a device are published.
pub open spec fn event_topic(id: Seq<char>, instance: Seq<char>) -> Seq<char> {
    "gv2mqtt/event/"@ + safe_id(id) + "/"@ + safe_text(instance) + "/state"@
}

/// The id by which Home Assistant tells the event entities apart.
pub open spec fn event_unique_id(id: Seq<char>, instance: Seq<char>) -> Seq<char> {
    "gv2mqtt-"@ + safe_id(id) + "-event-"@ + safe_text(instance)
}

/// Puts an underscore in place of each unsafe character.
pub fn topic_safe_string(s: &str) -> (r: String)
    ensures
        r@ == safe_text(s@),
{
    let mut out: String = String::new();
    for c in it: s.chars()
        invariant
            it.seq() == s@,
            out@ == safe_text(s@.take(it.index())),
    {
        if c == ':' || c == ' ' || c == '\\' || c == '/' || c == '\'' || c == '"' {
            out.push('_');
        } else {
            out.push(c);
        }
    }
    assert(s@.take(s@.len() as int) == s@);
    out
}

/// The id of a device without its colons and spaces.
pub fn topic_safe_id(device: &Device) -> (r: String)
    ensures
        r@ == safe_id(device.id@),
{
    let mut out: String = String::new();
    let ghost id = device.id@;
    proof {
        reveal(Seq::filter);
    }
    for c in it: device.id.as_str().chars()
        invariant
            it.seq() == id,
            out@ == safe_id(id.take(it.index())),
    {
        proof {
            reveal(Seq::filter);
            assert(id.take(it.index() + 1).drop_last() == id.take(it.index()));
        }
        if c != ':' && c != ' ' {
            out.push(c);
        }
    }
    assert(id.take(id.len() as int) == id);
    out
}

/// The topic on which the service says whether it is available.
pub fn availability_topic() -> (r: String)
    ensures
        r@ == "gv2mqtt/availability"@,
{
    "gv2mqtt/availability".to_owned()
}

/// The topic on which the events of one capability of a device are published.
pub fn event_state_topic(device: &Device, instance: &str) -> (r: String)
    ensures
        r@ == event_topic(device.id@, instance@),
{
    let mut out: String = "gv2mqtt/event/".to_owned();
    out.append(topic_safe_id(device).as_str());
    out.append("/");
    out.append(topic_safe_string(instance).as_str());
    out.append("/state");
    out
}

/// The id of the event entity of one capability of a device.
pub fn event_entity_id(device: &Device, instance: &str) -> (r: String)
    ensures
        r@ == event_unique_id(device.id@, instance@),
{
    let mut out: String = "gv2mqtt-".to_owned();
    out.append(topic_safe_id(device).as_str());
    out.append("-event-");
    out.append(topic_safe_string(instance).as_str());
    out
}

/// Each character of a text keeps its place: a colon, a space, a slash, a
/// backslash or a quote becomes an underscore, and any other stays.
pub proof fn unsafe_characters_become_underscores(s: Seq<char>, i: int)
    requires
        0 <= i < s.len(),
    ensures
        safe_text(s).len() == s.len(),
        seq![':', ' ', '/', '\\', '\'', '"'].contains(s[i]) ==> safe_text(s)[i] == '_',
        !seq![':', ' ', '/', '\\', '\'', '"'].contains(s[i]) ==> safe_text(s)[i] == s[i],
{
    let unsafe_ones = seq![':', ' ', '/', '\\', '\'', '"'];
    assert(unsafe_ones[0] == ':' && unsafe_ones[1] == ' ' && unsafe_ones[2] == '/'
        && unsafe_ones[3] == '\\' && unsafe_ones[4] == '\'' && unsafe_ones[5] == '"');
}

/// A device id loses its colons and spaces and nothing else: what one more
/// character adds is that character, unless it is one of these.
pub proof fn ids_lose_colons_and_spaces(id: Seq<char>, c: char)
    ensures
        safe_id(Seq::empty()) == Seq::<char>::empty(),
        c == ':' || c == ' ' ==> safe_id(id.push(c)) == safe_id(id),
        c != ':' && c != ' ' ==> safe_id(id.push(c)) == safe_id(id).push(c),
{
    reveal(Seq::filter);
    assert(id.push(c).drop_last() == id);
}

/// A text with no unsafe character, and an id with no colon or space, go into
/// topics and ids as they are.
pub proof fn safe_names_stay(id: Seq<char>, instance: Seq<char>)
    requires
        !id.contains(':') && !id.contains(' '),
        forall|i: int|
            0 <= i < instance.len() ==> !seq![':', ' ', '/', '\\', '\'', '"'].contains(
                #[trigger] instance[i],
            ),
    ensures
        event_topic(id, instance) == "gv2mqtt/event/"@ + id + "/"@ + instance + "/state"@,
        event_unique_id(id, instance) == "gv2mqtt-"@ + id + "-event-"@ + instance,
{
    lemma_safe_id_stays(id);
    assert forall|i: int| 0 <= i < instance.len() implies safe_text(instance)[i] == instance[i] by {
        unsafe_characters_become_underscores(instance, i);
    }
    assert(safe_text(instance) == instance);
}

proof fn lemma_safe_id_stays(id: Seq<char>)
    requires
        !id.contains(':') && !id.contains(' '),
    ensures
        safe_id(id) == id,
    decreases id.len(),
{
    reveal(Seq::filter);
    if id.len() > 0 {
        let before = id.drop_last();
        assert forall|c: char| before.contains(c) implies id.contains(c) by {
            let i = before.index_of(c);
            assert(id[i] == c);
        }
        lemma_safe_id_stays(before);
        assert(id[id.len() - 1] == id.last());
        ids_lose_colons_and_spaces(before, id.last());
        assert(before.push(id.last()) == id);
    }
}

proof fn lemma_safe_id_has_no_colon(id: Seq<char>)
    ensures
        !safe_id(id).contains(':') && !safe_id(id).contains(' '),
    decreases id.len(),
{
    reveal(Seq::filter);
    if id.len() > 0 {
        lemma_safe_id_has_no_colon(id.drop_last());
        ids_lose_colons_and_spaces(id.drop_last(), id.last());
        assert(id.drop_last().push(id.last()) == id);
    }
}

/// Only the safe forms of the id and the instance count for topics and ids.
pub proof fn only_safe_forms_count(id: Seq<char>, instance: Seq<char>)
    ensures
        event_topic(id, instance) == event_topic(safe_id(id), safe_text(instance)),
        event_unique_id(id, instance) == event_unique_id(safe_id(id), safe_text(instance)),
{
    lemma_safe_id_has_no_colon(id);
    lemma_safe_id_stays(safe_id(id));
    assert(safe_text(safe_text(instance)) == safe_text(instance));
}

/// Two event entities share a topic only if the safe forms of their devices
/// and of their instances are the same.
pub proof fn topics_tell_entities_apart(
    id: Seq<char>,
    instance: Seq<char>,
    other_id: Seq<char>,
    other_instance: Seq<char>,
)
    requires
        event_topic(id, instance) == event_topic(other_id, other_instance),
    ensures
        safe_id(id) == safe_id(other_id),
        safe_text(instance) == safe_text(other_instance),
{
    reveal_strlit("gv2mqtt/event/");
    reveal_strlit("/");
    reveal_strlit("/state");
    let topic = event_topic(id, instance);
    let (a, s) = (safe_id(id), safe_text(instance));
    let (b, t) = (safe_id(other_id), safe_text(other_instance));
    let n = "gv2mqtt/event/"@.len() as int;
    assert forall|i: int| 0 <= i < s.len() implies s[i] != '/' by {
        unsafe_characters_become_underscores(instance, i);
        assert(seq![':', ' ', '/', '\\', '\'', '"'][2] == '/');
    }
    assert forall|i: int| 0 <= i < t.len() implies t[i] != '/' by {
        unsafe_characters_become_underscores(other_instance, i);
        assert(seq![':', ' ', '/', '\\', '\'', '"'][2] == '/');
    }
    assert(topic.len() == n + a.len() + 1 + s.len() + 6);
    assert(topic.len() == n + b.len() + 1 + t.len() + 6);
    assert(topic[n + a.len()] == '/');
    assert(topic[n + b.len()] == '/');
    if a.len() < b.len() {
        assert(topic[n + b.len()] == s[b.len() - a.len() - 1]);
    }
    if b.len() < a.len() {
        assert(topic[n + a.len()] == t[a.len() - b.len() - 1]);
    }
    assert(a == topic.subrange(n, n + a.len()));
    assert(b == topic.subrange(n, n + b.len()));
    assert(s == topic.subrange(n + a.len() + 1, n + a.len() + 1 + s.len()));
    assert(t == topic.subrange(n + b.len() + 1, n + b.len() + 1 + t.len()));
}

/// Two event entities of one device share an id only if the safe forms of
/// their instances are the same, and two of one instance only if those of
/// their devices are.
pub proof fn unique_ids_tell_entities_apart(
    id: Seq<char>,
    instance: Seq<char>,
    other_id: Seq<char>,
    other_instance: Seq<char>,
)
    requires
        event_unique_id(id, instance) == event_unique_id(other_id, other_instance),
    ensures
        safe_id(id) == safe_id(other_id) <==> safe_text(instance) == safe_text(other_instance),
{
    let whole = event_unique_id(id, instance);
    let (a, s) = (safe_id(id), safe_text(instance));
    let (b, t) = (safe_id(other_id), safe_text(other_instance));
    let n = "gv2mqtt-"@.len() as int;
    let m = "-event-"@.len() as int;
    assert(whole.len() == n + a.len() + m + s.len());
    assert(whole.len() == n + b.len() + m + t.len());
    assert(a == whole.subrange(n, n + a.len()));
    assert(b == whole.subrange(n, n + b.len()));
    assert(s == whole.subrange(n + a.len() + m, whole.len() as int));
    assert(t == whole.subrange(n + b.len() + m, whole.len() as int));
}

} // verus!
