//! The guide to the fields of a world: one line for each part of its schema that has a
//! description.

use crate::json::{
    content, data_of, find_member, find_text, json_of, member, resolve_schema_ref, resolved,
    text_member, Json, JsonData,
};
use crate::text::{contains_text, join, joined};
use vstd::prelude::*;

verus! {

/// The path of a part of a schema, given the path of what it is a part of.
pub open spec fn sub_path(prefix: Seq<char>, segment: Seq<char>) -> Seq<char> {
    if prefix.len() == 0 {
        segment
    } else {
        prefix + "."@ + segment
    }
}

/// The path of a part of a schema, given the path of what it is a part of.
pub fn join_schema_path(prefix: &str, segment: &str) -> (r: String)
    ensures
        r@ == sub_path(prefix@, segment@),
{
    if prefix.unicode_len() == 0 {
        segment.to_string()
    } else {
        let mut path = prefix.to_string();
        path.append(".");
        path.append(segment);
        path
    }
}

/// What a walk through a schema has brought: the lines of the guide, and the references
/// that were followed, each with the path it was met at.
#[verifier::ext_equal]
pub struct Walk {
    pub lines: Seq<Seq<char>>,
    pub followed: Set<Seq<char>>,
}

/// A walk with the line of a schema that stands at a path and has a description.
pub open spec fn with_description(schema: Json, path: Seq<char>, walk: Walk) -> Walk {
    match text_member(schema, "description"@) {
        Some(description) => if path.len() > 0 {
            Walk { lines: walk.lines.push("- "@ + path + ": "@ + description), ..walk }
        } else {
            walk
        },
        None => walk,
    }
}

/// Walks a schema and what it is made of, no deeper than `depth`; nothing if it is
/// deeper. A reference is followed in place of the schema, once at each path; otherwise
/// the description comes first, then the properties, then the items.
pub open spec fn walked(root: Json, schema: Json, path: Seq<char>, walk: Walk, depth: nat) -> Option<
    Walk,
>
    decreases depth, 0nat,
{
    if depth == 0 {
        None
    } else {
        match text_member(schema, "$ref"@) {
            Some(reference) => {
                let met = path + ":"@ + reference;
                let after = Walk { followed: walk.followed.insert(met), ..walk };
                if walk.followed.contains(met) {
                    Some(walk)
                } else {
                    match resolved(root, reference) {
                        Some(target) => walked(root, target, path, after, (depth - 1) as nat),
                        None => Some(after),
                    }
                }
            },
            None => {
                let described = with_description(schema, path, walk);
                let inside = match member(schema, "properties"@) {
                    Some(Json::Object(members)) => walked_members(
                        root,
                        members,
                        path,
                        described,
                        (depth - 1) as nat,
                    ),
                    _ => Some(described),
                };
                match inside {
                    Some(inside) => match member(schema, "items"@) {
                        Some(Json::Object(members)) => walked(
                            root,
                            Json::Object(members),
                            path + "[]"@,
                            inside,
                            (depth - 1) as nat,
                        ),
                        Some(Json::Array(entries)) => walked_items(
                            root,
                            entries,
                            path + "[]"@,
                            inside,
                            (depth - 1) as nat,
                        ),
                        _ => Some(inside),
                    },
                    None => None,
                }
            },
        }
    }
}

/// Walks the properties of a schema, each at a path of its own.
pub open spec fn walked_members(
    root: Json,
    members: Seq<(Seq<char>, Json)>,
    path: Seq<char>,
    walk: Walk,
    depth: nat,
) -> Option<Walk>
    decreases depth, members.len() + 1,
{
    if members.len() == 0 {
        Some(walk)
    } else {
        match walked_members(root, members.drop_last(), path, walk, depth) {
            Some(before) => walked(
                root,
                members.last().1,
                sub_path(path, members.last().0),
                before,
                depth,
            ),
            None => None,
        }
    }
}

/// Walks the items of a schema, all at one path.
pub open spec fn walked_items(
    root: Json,
    items: Seq<Json>,
    path: Seq<char>,
    walk: Walk,
    depth: nat,
) -> Option<Walk>
    decreases depth, items.len() + 1,
{
    if items.len() == 0 {
        Some(walk)
    } else {
        match walked_items(root, items.drop_last(), path, walk, depth) {
            Some(before) => walked(root, items.last(), path, before, depth),
            None => None,
        }
    }
}

/// A walk that reaches its end reaches the same end when it may go deeper.
proof fn lemma_deeper(root: Json, schema: Json, path: Seq<char>, walk: Walk, depth: nat, more: nat)
    requires
        depth <= more,
        walked(root, schema, path, walk, depth) is Some,
    ensures
        walked(root, schema, path, walk, more) == walked(root, schema, path, walk, depth),
    decreases depth, 0nat,
{
    match text_member(schema, "$ref"@) {
        Some(reference) => {
            let met = path + ":"@ + reference;
            let after = Walk { followed: walk.followed.insert(met), ..walk };
            if !walk.followed.contains(met) && resolved(root, reference) is Some {
                lemma_deeper(
                    root,
                    resolved(root, reference)->0,
                    path,
                    after,
                    (depth - 1) as nat,
                    (more - 1) as nat,
                );
            }
        },
        None => {
            let described = with_description(schema, path, walk);
            let inside = match member(schema, "properties"@) {
                Some(Json::Object(members)) => walked_members(
                    root,
                    members,
                    path,
                    described,
                    (depth - 1) as nat,
                ),
                _ => Some(described),
            };
            if let Some(Json::Object(members)) = member(schema, "properties"@) {
                lemma_members_deeper(
                    root,
                    members,
                    path,
                    described,
                    (depth - 1) as nat,
                    (more - 1) as nat,
                );
            }
            match member(schema, "items"@) {
                Some(Json::Object(members)) => {
                    lemma_deeper(
                        root,
                        Json::Object(members),
                        path + "[]"@,
                        inside->0,
                        (depth - 1) as nat,
                        (more - 1) as nat,
                    );
                },
                Some(Json::Array(entries)) => {
                    lemma_items_deeper(
                        root,
                        entries,
                        path + "[]"@,
                        inside->0,
                        (depth - 1) as nat,
                        (more - 1) as nat,
                    );
                },
                _ => {},
            }
        },
    }
}

proof fn lemma_members_deeper(
    root: Json,
    members: Seq<(Seq<char>, Json)>,
    path: Seq<char>,
    walk: Walk,
    depth: nat,
    more: nat,
)
    requires
        depth <= more,
        walked_members(root, members, path, walk, depth) is Some,
    ensures
        walked_members(root, members, path, walk, more) == walked_members(
            root,
            members,
            path,
            walk,
            depth,
        ),
    decreases depth, members.len() + 1,
{
    if members.len() > 0 {
        lemma_members_deeper(root, members.drop_last(), path, walk, depth, more);
        lemma_deeper(
            root,
            members.last().1,
            sub_path(path, members.last().0),
            walked_members(root, members.drop_last(), path, walk, depth)->0,
            depth,
            more,
        );
    }
}

proof fn lemma_items_deeper(
    root: Json,
    items: Seq<Json>,
    path: Seq<char>,
    walk: Walk,
    depth: nat,
    more: nat,
)
    requires
        depth <= more,
        walked_items(root, items, path, walk, depth) is Some,
    ensures
        walked_items(root, items, path, walk, more) == walked_items(root, items, path, walk, depth),
    decreases depth, items.len() + 1,
{
    if items.len() > 0 {
        lemma_items_deeper(root, items.drop_last(), path, walk, depth, more);
        lemma_deeper(
            root,
            items.last(),
            path,
            walked_items(root, items.drop_last(), path, walk, depth)->0,
            depth,
            more,
        );
    }
}

proof fn lemma_members_stop(
    root: Json,
    members: Seq<(Seq<char>, Json)>,
    path: Seq<char>,
    walk: Walk,
    depth: nat,
    n: int,
)
    requires
        0 <= n <= members.len(),
        walked_members(root, members.take(n), path, walk, depth) is None,
    ensures
        walked_members(root, members, path, walk, depth) is None,
    decreases members.len() - n,
{
    if n < members.len() {
        assert(members.take(n + 1).drop_last() =~= members.take(n));
        lemma_members_stop(root, members, path, walk, depth, n + 1);
    } else {
        assert(members.take(n) =~= members);
    }
}

proof fn lemma_items_stop(
    root: Json,
    items: Seq<Json>,
    path: Seq<char>,
    walk: Walk,
    depth: nat,
    n: int,
)
    requires
        0 <= n <= items.len(),
        walked_items(root, items.take(n), path, walk, depth) is None,
    ensures
        walked_items(root, items, path, walk, depth) is None,
    decreases items.len() - n,
{
    if n < items.len() {
        assert(items.take(n + 1).drop_last() =~= items.take(n));
        lemma_items_stop(root, items, path, walk, depth, n + 1);
    } else {
        assert(items.take(n) =~= items);
    }
}

/// The lines and the references of a walk that is under way.
struct SchemaWalk {
    lines: Vec<String>,
    followed: Vec<String>,
}

impl SchemaWalk {
    spec fn walk(&self) -> Walk {
        Walk { lines: self.lines.deep_view(), followed: self.followed.deep_view().to_set() }
    }

    fn add_line(&mut self, line: String)
        ensures
            final(self).walk() == (Walk {
                lines: old(self).walk().lines.push(line@),
                ..old(self).walk()
            }),
    {
        self.lines.push(line);
        assert(self.lines.deep_view() =~= old(self).lines.deep_view().push(line@));
    }

    /// Notes that a reference is followed, unless it was before.
    fn follow(&mut self, met: String) -> (first: bool)
        ensures
            first == !old(self).walk().followed.contains(met@),
            first ==> final(self).walk() == (Walk {
                followed: old(self).walk().followed.insert(met@),
                ..old(self).walk()
            }),
            !first ==> *final(self) == *old(self),
    {
        let ghost before = self.followed.deep_view();
        if contains_text(self.followed.as_slice(), met.as_str()) {
            return false;
        }
        self.followed.push(met);
        let ghost after = self.followed.deep_view();
        assert(after =~= before.push(met@));
        assert(after.to_set() =~= before.to_set().insert(met@)) by {
            assert forall|s: Seq<char>| after.contains(s) <==> before.contains(s) || s == met@ by {
                if before.contains(s) {
                    let i = choose|i: int| 0 <= i < before.len() && before[i] == s;
                    assert(after[i] == s);
                }
                assert(after[after.len() - 1] == met@);
                if after.contains(s) && s != met@ {
                    let i = choose|i: int| 0 <= i < after.len() && after[i] == s;
                    assert(before[i] == s);
                }
            }
        }
        true
    }
}

/// How deep a walk may still go, given how deep it might go before; without a limit it
/// may go on.
spec fn allows(limit: Option<usize>, depth: nat) -> bool {
    limit matches Some(n) ==> n == depth
}

fn flatten_schema_descriptions(
    root: &serde_json::Value,
    schema: &JsonData,
    path: &str,
    out: &mut SchemaWalk,
    limit: Option<usize>,
    Ghost(depth): Ghost<nat>,
) -> (ended: bool)
    requires
        allows(limit, depth),
        limit is None ==> walked(
            content(*root),
            schema.deep_view(),
            path@,
            old(out).walk(),
            depth,
        ) is Some,
    ensures
        ended == (walked(content(*root), schema.deep_view(), path@, old(out).walk(), depth)
            is Some),
        ended ==> walked(content(*root), schema.deep_view(), path@, old(out).walk(), depth) == Some(
            final(out).walk(),
        ),
    decreases depth, 0nat,
{
    let limit = match limit {
        Some(n) => {
            if n == 0 {
                return false;
            }
            Some(n - 1)
        },
        None => None,
    };
    let ghost start = out.walk();
    if let Some(reference) = find_text(schema, "$ref") {
        let mut met = path.to_string();
        met.append(":");
        met.append(reference);
        if !out.follow(met) {
            return true;
        }
        return match resolve_schema_ref(root, reference) {
            Some(target) => flatten_schema_descriptions(
                root,
                &target,
                path,
                out,
                limit,
                Ghost((depth - 1) as nat),
            ),
            None => true,
        };
    }
    if let Some(description) = find_text(schema, "description") {
        if path.unicode_len() > 0 {
            let mut line = "- ".to_string();
            line.append(path);
            line.append(": ");
            line.append(description);
            out.add_line(line);
        }
    }
    assert(out.walk() == with_description(schema.deep_view(), path@, start));
    if let Some(JsonData::Object(properties)) = find_member(schema, "properties") {
        proof {
            let listed = json_of(JsonData::Object(*properties))->Object_0;
            assert(listed =~= members_of(properties@));
        }
        if !flatten_members(root, properties, path, out, limit, Ghost((depth - 1) as nat)) {
            return false;
        }
    }
    match find_member(schema, "items") {
        Some(items) => {
            let mut item_path = path.to_string();
            item_path.append("[]");
            match items {
                JsonData::Object(_) => flatten_schema_descriptions(
                    root,
                    items,
                    item_path.as_str(),
                    out,
                    limit,
                    Ghost((depth - 1) as nat),
                ),
                JsonData::Array(entries) => {
                    assert(json_of(JsonData::Array(*entries))->Array_0 =~= entries.deep_view());
                    flatten_items(
                        root,
                        entries,
                        item_path.as_str(),
                        out,
                        limit,
                        Ghost((depth - 1) as nat),
                    )
                },
                _ => true,
            }
        },
        None => true,
    }
}

/// What the members of an object hold.
spec fn members_of(members: Seq<(String, JsonData)>) -> Seq<(Seq<char>, Json)> {
    Seq::new(members.len(), |i: int| (members[i].0@, json_of(members[i].1)))
}

fn flatten_members(
    root: &serde_json::Value,
    members: &Vec<(String, JsonData)>,
    path: &str,
    out: &mut SchemaWalk,
    limit: Option<usize>,
    Ghost(depth): Ghost<nat>,
) -> (ended: bool)
    requires
        allows(limit, depth),
        limit is None ==> walked_members(
            content(*root),
            members_of(members@),
            path@,
            old(out).walk(),
            depth,
        ) is Some,
    ensures
        ended == (walked_members(
            content(*root),
            members_of(members@),
            path@,
            old(out).walk(),
            depth,
        ) is Some),
        ended ==> walked_members(
            content(*root),
            members_of(members@),
            path@,
            old(out).walk(),
            depth,
        ) == Some(final(out).walk()),
    decreases depth, members.len() + 1,
{
    let ghost all = members_of(members@);
    let ghost start = out.walk();
    let ghost top = content(*root);
    let mut i: usize = 0;
    assert(all.take(0) =~= seq![]);
    while i < members.len()
        invariant
            i <= members.len(),
            top == content(*root),
            start == old(out).walk(),
            all == members_of(members@),
            allows(limit, depth),
            limit is None ==> walked_members(top, all, path@, start, depth) is Some,
            walked_members(top, all.take(i as int), path@, start, depth) == Some(out.walk()),
        decreases members.len() - i,
    {
        let entry = &members[i];
        let child_path = join_schema_path(path, entry.0.as_str());
        assert(all.take(i + 1).drop_last() =~= all.take(i as int));
        assert(all.take(i + 1).last() == (entry.0@, entry.1.deep_view()));
        proof {
            if walked_members(top, all.take(i + 1), path@, start, depth) is None {
                lemma_members_stop(top, all, path@, start, depth, i + 1);
            }
        }
        if !flatten_schema_descriptions(
            root,
            &entry.1,
            child_path.as_str(),
            out,
            limit,
            Ghost(depth),
        ) {
            return false;
        }
        i = i + 1;
    }
    assert(all.take(all.len() as int) =~= all);
    true
}

fn flatten_items(
    root: &serde_json::Value,
    items: &Vec<JsonData>,
    path: &str,
    out: &mut SchemaWalk,
    limit: Option<usize>,
    Ghost(depth): Ghost<nat>,
) -> (ended: bool)
    requires
        allows(limit, depth),
        limit is None ==> walked_items(
            content(*root),
            items.deep_view(),
            path@,
            old(out).walk(),
            depth,
        ) is Some,
    ensures
        ended == (walked_items(content(*root), items.deep_view(), path@, old(out).walk(), depth)
            is Some),
        ended ==> walked_items(content(*root), items.deep_view(), path@, old(out).walk(), depth)
            == Some(final(out).walk()),
    decreases depth, items.len() + 1,
{
    let ghost all = items.deep_view();
    let ghost start = out.walk();
    let ghost top = content(*root);
    let mut i: usize = 0;
    assert(all.take(0) =~= seq![]);
    while i < items.len()
        invariant
            i <= items.len(),
            top == content(*root),
            start == old(out).walk(),
            all == items.deep_view(),
            allows(limit, depth),
            limit is None ==> walked_items(top, all, path@, start, depth) is Some,
            walked_items(top, all.take(i as int), path@, start, depth) == Some(out.walk()),
        decreases items.len() - i,
    {
        assert(all.take(i + 1).drop_last() =~= all.take(i as int));
        assert(all.take(i + 1).last() == items@[i as int].deep_view());
        proof {
            if walked_items(top, all.take(i + 1), path@, start, depth) is None {
                lemma_items_stop(top, all, path@, start, depth, i + 1);
            }
        }
        if !flatten_schema_descriptions(root, &items[i], path, out, limit, Ghost(depth)) {
            return false;
        }
        i = i + 1;
    }
    assert(all.take(all.len() as int) =~= all);
    true
}

/// A walk that has brought nothing yet.
pub open spec fn no_walk() -> Walk {
    Walk { lines: seq![], followed: Set::empty() }
}

/// Whether a schema and what it is made of is no deeper than `depth`. One that refers to
/// itself through its properties has no depth.
pub open spec fn has_depth(schema: Json, depth: nat) -> bool {
    walked(schema, schema, seq![], no_walk(), depth) is Some
}

/// Whether the walk through a schema has an end.
pub open spec fn has_guide(schema: Json) -> bool {
    exists|depth: nat| has_depth(schema, depth)
}

/// The lines of a guide, or a notice that there are none.
pub open spec fn guide_of_lines(lines: Seq<Seq<char>>) -> Seq<char> {
    if lines.len() == 0 {
        "No field descriptions available."@
    } else {
        joined(lines, "\n"@)
    }
}

/// The guide to the fields that a schema describes.
pub open spec fn guide(schema: Json) -> Seq<char> {
    let depth = choose|depth: nat| has_depth(schema, depth);
    guide_of_lines(walked(schema, schema, seq![], no_walk(), depth)->0.lines)
}

/// However deep a walk may go, as long as it is deep enough the guide is the same.
pub proof fn law_guide_rests_on_the_schema_alone(schema: Json, depth: nat)
    requires
        has_depth(schema, depth),
    ensures
        has_guide(schema),
        guide(schema) == guide_of_lines(walked(schema, schema, seq![], no_walk(), depth)->0.lines),
{
    let chosen = choose|depth: nat| has_depth(schema, depth);
    assert(has_depth(schema, chosen));
    if depth <= chosen {
        lemma_deeper(schema, schema, seq![], no_walk(), depth, chosen);
    } else {
        lemma_deeper(schema, schema, seq![], no_walk(), chosen, depth);
    }
}

fn new_walk() -> (r: SchemaWalk)
    ensures
        r.walk() == no_walk(),
{
    let r = SchemaWalk { lines: Vec::new(), followed: Vec::new() };
    assert(r.walk().lines =~= seq![]);
    assert(r.walk().followed =~= Set::empty());
    r
}

/// Writes the guide to the fields that a schema describes.
pub fn format_schema_guide(schema: &serde_json::Value) -> (r: String)
    requires
        has_guide(content(*schema)),
    ensures
        r@ == guide(content(*schema)),
{
    let ghost depth = choose|depth: nat| has_depth(content(*schema), depth);
    let mut out = new_walk();
    proof {
        reveal_strlit("");
        assert(""@ =~= seq![]);
    }
    flatten_schema_descriptions(schema, &data_of(schema), "", &mut out, None, Ghost(depth));
    assert(out.lines.deep_view().len() == out.lines.len());
    if out.lines.len() == 0 {
        "No field descriptions available.".to_string()
    } else {
        join(out.lines.as_slice(), "\n")
    }
}

/// Whether a schema and what it is made of is no deeper than a limit.
pub fn schema_fits(schema: &serde_json::Value, limit: usize) -> (r: bool)
    ensures
        r == has_depth(content(*schema), limit as nat),
        r ==> has_guide(content(*schema)),
{
    let mut out = new_walk();
    proof {
        reveal_strlit("");
        assert(""@ =~= seq![]);
    }
    let fits = flatten_schema_descriptions(
        schema,
        &data_of(schema),
        "",
        &mut out,
        Some(limit),
        Ghost(limit as nat),
    );
    assert(fits ==> has_depth(content(*schema), limit as nat));
    fits
}

/// Writes the guide to the fields that a schema describes, unless the schema is deeper
/// than a limit.
pub fn schema_guide_within(schema: &serde_json::Value, limit: usize) -> (r: Option<String>)
    ensures
        r.deep_view() == if has_depth(content(*schema), limit as nat) {
            Some(guide(content(*schema)))
        } else {
            None
        },
{
    if schema_fits(schema, limit) {
        Some(format_schema_guide(schema))
    } else {
        None
    }
}

} // verus!
