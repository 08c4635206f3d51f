//! What the guide to the fields of a world shows of the world's schema.

use crate::json::{compact, formatted, member, pointed, pretty, resolved, text_member, Json};
use crate::schema::{
    guide, guide_of_lines, has_depth, law_guide_rests_on_the_schema_alone, no_walk, sub_path,
    walked, walked_items, walked_members, with_description, Walk,
};
use crate::text::occurs;
use crate::text_laws::law_each_part_stands_in_the_joined_text;
use vstd::prelude::*;

verus! {

/// Whether a walk goes on from another: it has all its lines, in order and first, and
/// followed all its references.
pub open spec fn goes_on_from(after: Walk, before: Walk) -> bool {
    &&& before.lines.len() <= after.lines.len()
    &&& after.lines.take(before.lines.len() as int) == before.lines
    &&& before.followed.subset_of(after.followed)
}

proof fn lemma_goes_on(first: Walk, second: Walk, third: Walk)
    requires
        goes_on_from(second, first),
        goes_on_from(third, second),
    ensures
        goes_on_from(third, first),
{
    let n = first.lines.len() as int;
    assert(third.lines.take(n) =~= third.lines.take(second.lines.len() as int).take(n));
}

proof fn lemma_line_stays(before: Walk, after: Walk, line: Seq<char>)
    requires
        goes_on_from(after, before),
        before.lines.contains(line),
    ensures
        after.lines.contains(line),
{
    let i = choose|i: int| 0 <= i < before.lines.len() && before.lines[i] == line;
    assert(after.lines.take(before.lines.len() as int)[i] == line);
    assert(after.lines[i] == line);
}

/// A walk through a schema, or through its properties or its items, only adds to what was
/// brought before.
pub proof fn law_walks_lose_nothing(
    root: Json,
    schema: Json,
    path: Seq<char>,
    walk: Walk,
    depth: nat,
)
    ensures
        walked(root, schema, path, walk, depth) matches Some(after) ==> goes_on_from(after, walk),
    decreases depth, 0nat,
{
    if depth > 0 {
        let less = (depth - 1) as nat;
        lemma_same_goes_on(walk);
        match text_member(schema, "$ref"@) {
            Some(reference) => {
                let met = path + ":"@ + reference;
                let after = Walk { followed: walk.followed.insert(met), ..walk };
                assert(goes_on_from(after, walk));
                if !walk.followed.contains(met) {
                    if let Some(target) = resolved(root, reference) {
                        law_walks_lose_nothing(root, target, path, after, less);
                        if let Some(end) = walked(root, target, path, after, less) {
                            lemma_goes_on(walk, after, end);
                        }
                    }
                }
            },
            None => {
                let described = with_description(schema, path, walk);
                lemma_described(schema, path, walk);
                lemma_same_goes_on(described);
                let inside = match member(schema, "properties"@) {
                    Some(Json::Object(members)) => walked_members(
                        root,
                        members,
                        path,
                        described,
                        less,
                    ),
                    _ => Some(described),
                };
                if let Some(Json::Object(members)) = member(schema, "properties"@) {
                    lemma_members_lose_nothing(root, members, path, described, less);
                }
                if let Some(inside) = inside {
                    lemma_goes_on(walk, described, inside);
                    match member(schema, "items"@) {
                        Some(Json::Object(members)) => {
                            let items = Json::Object(members);
                            law_walks_lose_nothing(root, items, path + "[]"@, inside, less);
                            if let Some(end) = walked(root, items, path + "[]"@, inside, less) {
                                lemma_goes_on(walk, inside, end);
                            }
                        },
                        Some(Json::Array(entries)) => {
                            lemma_items_lose_nothing(root, entries, path + "[]"@, inside, less);
                            if let Some(end) = walked_items(
                                root,
                                entries,
                                path + "[]"@,
                                inside,
                                less,
                            ) {
                                lemma_goes_on(walk, inside, end);
                            }
                        },
                        _ => {},
                    }
                }
            },
        }
    }
}

proof fn lemma_same_goes_on(walk: Walk)
    ensures
        goes_on_from(walk, walk),
{
    assert(walk.lines.take(walk.lines.len() as int) =~= walk.lines);
}

proof fn lemma_described(schema: Json, path: Seq<char>, walk: Walk)
    ensures
        goes_on_from(with_description(schema, path, walk), walk),
{
    assert(with_description(schema, path, walk).lines.take(walk.lines.len() as int)
        =~= walk.lines);
}

proof fn lemma_members_lose_nothing(
    root: Json,
    members: Seq<(Seq<char>, Json)>,
    path: Seq<char>,
    walk: Walk,
    depth: nat,
)
    ensures
        walked_members(root, members, path, walk, depth) matches Some(after) ==> goes_on_from(
            after,
            walk,
        ),
    decreases depth, members.len() + 1,
{
    if members.len() == 0 {
        lemma_same_goes_on(walk);
    } else {
        lemma_members_lose_nothing(root, members.drop_last(), path, walk, depth);
        if let Some(before) = walked_members(root, members.drop_last(), path, walk, depth) {
            let inner = sub_path(path, members.last().0);
            law_walks_lose_nothing(root, members.last().1, inner, before, depth);
            if let Some(end) = walked(root, members.last().1, inner, before, depth) {
                lemma_goes_on(walk, before, end);
            }
        }
    }
}

proof fn lemma_items_lose_nothing(
    root: Json,
    items: Seq<Json>,
    path: Seq<char>,
    walk: Walk,
    depth: nat,
)
    ensures
        walked_items(root, items, path, walk, depth) matches Some(after) ==> goes_on_from(
            after,
            walk,
        ),
    decreases depth, items.len() + 1,
{
    if items.len() == 0 {
        lemma_same_goes_on(walk);
    } else {
        lemma_items_lose_nothing(root, items.drop_last(), path, walk, depth);
        if let Some(before) = walked_items(root, items.drop_last(), path, walk, depth) {
            law_walks_lose_nothing(root, items.last(), path, before, depth);
            if let Some(end) = walked(root, items.last(), path, before, depth) {
                lemma_goes_on(walk, before, end);
            }
        }
    }
}

/// A part of a schema that is described, and is no reference, has its line: its path and
/// its description.
pub proof fn law_described_parts_have_their_lines(
    root: Json,
    schema: Json,
    path: Seq<char>,
    description: Seq<char>,
    walk: Walk,
    depth: nat,
)
    requires
        text_member(schema, "$ref"@) is None,
        text_member(schema, "description"@) == Some(description),
        path.len() > 0,
    ensures
        walked(root, schema, path, walk, depth) matches Some(after) ==> after.lines.contains(
            "- "@ + path + ": "@ + description,
        ),
{
    if depth > 0 {
        let less = (depth - 1) as nat;
        let line = "- "@ + path + ": "@ + description;
        let described = with_description(schema, path, walk);
        assert(described.lines[walk.lines.len() as int] == line);
        assert(described.lines.contains(line));
        lemma_after_description(root, schema, path, walk, depth);
        if let Some(after) = walked(root, schema, path, walk, depth) {
            lemma_line_stays(described, after, line);
        }
    }
}

proof fn lemma_after_description(
    root: Json,
    schema: Json,
    path: Seq<char>,
    walk: Walk,
    depth: nat,
)
    requires
        text_member(schema, "$ref"@) is None,
        depth > 0,
    ensures
        ({
            let described = with_description(schema, path, walk);
            let less = (depth - 1) as nat;
            let inside = match member(schema, "properties"@) {
                Some(Json::Object(members)) => walked_members(root, members, path, described, less),
                _ => Some(described),
            };
            walked(root, schema, path, walk, depth) matches Some(after) ==> goes_on_from(
                after,
                described,
            ) && (inside matches Some(inside) && goes_on_from(after, inside))
        }),
{
    let less = (depth - 1) as nat;
    let described = with_description(schema, path, walk);
    lemma_same_goes_on(described);
    let inside = match member(schema, "properties"@) {
        Some(Json::Object(members)) => walked_members(root, members, path, described, less),
        _ => Some(described),
    };
    if let Some(Json::Object(members)) = member(schema, "properties"@) {
        lemma_members_lose_nothing(root, members, path, described, less);
    }
    if let Some(inside) = inside {
        lemma_same_goes_on(inside);
        match member(schema, "items"@) {
            Some(Json::Object(members)) => {
                let items = Json::Object(members);
                law_walks_lose_nothing(root, items, path + "[]"@, inside, less);
                if let Some(end) = walked(root, items, path + "[]"@, inside, less) {
                    lemma_goes_on(described, inside, end);
                }
            },
            Some(Json::Array(entries)) => {
                lemma_items_lose_nothing(root, entries, path + "[]"@, inside, less);
                if let Some(end) = walked_items(root, entries, path + "[]"@, inside, less) {
                    lemma_goes_on(described, inside, end);
                }
            },
            _ => {},
        }
    }
}

proof fn lemma_member_line(
    root: Json,
    members: Seq<(Seq<char>, Json)>,
    path: Seq<char>,
    walk: Walk,
    depth: nat,
    i: int,
    description: Seq<char>,
)
    requires
        0 <= i < members.len(),
        text_member(members[i].1, "$ref"@) is None,
        text_member(members[i].1, "description"@) == Some(description),
        sub_path(path, members[i].0).len() > 0,
    ensures
        walked_members(root, members, path, walk, depth) matches Some(after)
            ==> after.lines.contains("- "@ + sub_path(path, members[i].0) + ": "@ + description),
    decreases members.len(),
{
    let line = "- "@ + sub_path(path, members[i].0) + ": "@ + description;
    if let Some(before) = walked_members(root, members.drop_last(), path, walk, depth) {
        let inner = sub_path(path, members.last().0);
        law_walks_lose_nothing(root, members.last().1, inner, before, depth);
        if i == members.len() - 1 {
            law_described_parts_have_their_lines(
                root,
                members.last().1,
                inner,
                description,
                before,
                depth,
            );
        } else {
            lemma_member_line(root, members.drop_last(), path, walk, depth, i, description);
            if let Some(end) = walked(root, members.last().1, inner, before, depth) {
                lemma_line_stays(before, end, line);
            }
        }
    }
}

/// The guide to a schema shows each property that the schema describes: its name and its
/// description, as they are.
pub proof fn law_guides_show_each_described_property(
    schema: Json,
    members: Seq<(Seq<char>, Json)>,
    depth: nat,
    i: int,
    description: Seq<char>,
)
    requires
        has_depth(schema, depth),
        text_member(schema, "$ref"@) is None,
        member(schema, "properties"@) == Some(Json::Object(members)),
        0 <= i < members.len(),
        members[i].0.len() > 0,
        text_member(members[i].1, "$ref"@) is None,
        text_member(members[i].1, "description"@) == Some(description),
    ensures
        occurs(guide(schema), "- "@ + members[i].0 + ": "@ + description),
{
    law_guide_rests_on_the_schema_alone(schema, depth);
    let less = (depth - 1) as nat;
    let walk = no_walk();
    let described = with_description(schema, seq![], walk);
    let after = walked(schema, schema, seq![], walk, depth)->0;
    lemma_after_description(schema, schema, seq![], walk, depth);
    let inside = walked_members(schema, members, seq![], described, less)->0;
    lemma_member_line(schema, members, seq![], described, less, i, description);
    let line = "- "@ + members[i].0 + ": "@ + description;
    lemma_line_stays(inside, after, line);
    let k = choose|k: int| 0 <= k < after.lines.len() && after.lines[k] == line;
    law_each_part_stands_in_the_joined_text(after.lines, "\n"@, k);
}

/// A property's own properties stand under its path, parted by a dot; at the top the path is
/// the name alone.
pub proof fn law_paths_lead_through_the_properties(prefix: Seq<char>, segment: Seq<char>)
    ensures
        prefix.len() == 0 ==> sub_path(prefix, segment) == segment,
        prefix.len() > 0 ==> sub_path(prefix, segment) == prefix + "."@ + segment,
{
}

/// Where a list's items are described by one schema, its line stands under the list's path
/// with brackets behind it.
pub proof fn law_items_stand_under_their_list(
    root: Json,
    schema: Json,
    path: Seq<char>,
    items: Seq<(Seq<char>, Json)>,
    description: Seq<char>,
    walk: Walk,
    depth: nat,
)
    requires
        text_member(schema, "$ref"@) is None,
        member(schema, "properties"@) is None,
        member(schema, "items"@) == Some(Json::Object(items)),
        text_member(Json::Object(items), "$ref"@) is None,
        text_member(Json::Object(items), "description"@) == Some(description),
    ensures
        walked(root, schema, path, walk, depth) matches Some(after) ==> after.lines.contains(
            "- "@ + (path + "[]"@) + ": "@ + description,
        ),
{
    if depth > 0 {
        let less = (depth - 1) as nat;
        reveal_strlit("[]");
        law_described_parts_have_their_lines(
            root,
            Json::Object(items),
            path + "[]"@,
            description,
            with_description(schema, path, walk),
            less,
        );
    }
}

/// A reference is followed to what it refers to, at the path at which it stands, once.
pub proof fn law_references_are_followed(
    root: Json,
    schema: Json,
    path: Seq<char>,
    reference: Seq<char>,
    target: Json,
    description: Seq<char>,
    walk: Walk,
    depth: nat,
)
    requires
        text_member(schema, "$ref"@) == Some(reference),
        resolved(root, reference) == Some(target),
        text_member(target, "$ref"@) is None,
        text_member(target, "description"@) == Some(description),
        path.len() > 0,
    ensures
        depth > 0 && walk.followed.contains(path + ":"@ + reference) ==> walked(
            root,
            schema,
            path,
            walk,
            depth,
        ) == Some(walk),
        !walk.followed.contains(path + ":"@ + reference) ==> (walked(
            root,
            schema,
            path,
            walk,
            depth,
        ) matches Some(after) ==> after.lines.contains("- "@ + path + ": "@ + description)),
{
    if depth > 0 && !walk.followed.contains(path + ":"@ + reference) {
        let met = path + ":"@ + reference;
        law_described_parts_have_their_lines(
            root,
            target,
            path,
            description,
            Walk { followed: walk.followed.insert(met), ..walk },
            (depth - 1) as nat,
        );
    }
}

/// A guide holds each of its lines.
pub proof fn law_guides_hold_their_lines(lines: Seq<Seq<char>>, i: int)
    requires
        0 <= i < lines.len(),
    ensures
        occurs(guide_of_lines(lines), lines[i]),
{
    law_each_part_stands_in_the_joined_text(lines, "\n"@, i);
}

/// A reference is a number sign and a pointer, which is followed from the root; any other
/// text refers to nothing.
pub proof fn law_references_point_from_the_root(root: Json, pointer: Seq<char>, other: Seq<char>)
    requires
        other.len() == 0 || other[0] != '#',
    ensures
        resolved(root, seq!['#'] + pointer) == pointed(root, pointer),
        resolved(root, other) is None,
{
    assert((seq!['#'] + pointer).drop_first() =~= pointer);
}

/// A value is shown over several lines, and on one line only where that fails.
pub proof fn law_values_are_shown_over_several_lines(value: Json)
    ensures
        pretty(value) matches Some(text) ==> formatted(value) == text,
        pretty(value) is None ==> formatted(value) == compact(value),
{
}

} // verus!
