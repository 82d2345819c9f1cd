//! Why each change of the tables keeps them sound.

use vstd::prelude::*;
use crate::rows::lemma_filter_origins;
use crate::script_service::model::{
    has_label, has_revision, has_script, lemma_oldest_at, lemma_slot_at, revision_sound, revisions_distinct, revisions_owned, revisions_sorted, revisions_sound,
    script_owns, spec_oldest_at, spec_slot_at, tables_sound, DbRevision,
    DbScript,
};

verus! {

/// A new script without a current revision, whose identifier and label are
/// free, can be added.
pub proof fn lemma_push_script_sound(
    scripts: Seq<DbScript>,
    revisions: Seq<DbRevision>,
    row: DbScript,
)
    requires
        tables_sound(scripts, revisions),
        !has_script(scripts, row.id),
        !has_label(scripts, row.public_identifier@),
        row.current_revision is None,
    ensures
        tables_sound(scripts.push(row), revisions),
{
    let after = scripts.push(row);
    assert forall|i: int, j: int| 0 <= i < j < after.len() implies (#[trigger] after[i]).id != (
    #[trigger] after[j]).id && after[i].public_identifier@ != after[j].public_identifier@ by {
        if j == scripts.len() {
            assert(after[i] == scripts[i]);
        } else {
            assert(after[i] == scripts[i] && after[j] == scripts[j]);
        }
    }
    assert forall|i: int| 0 <= i < revisions.len() implies has_script(
        after,
        (#[trigger] revisions[i]).script_id,
    ) by {
        let k = choose|k: int| 0 <= k < scripts.len() && (#[trigger] scripts[k]).id == revisions[i].script_id;
        assert(after[k].id == revisions[i].script_id);
    }
    assert forall|i: int| 0 <= i < after.len() implies match (#[trigger] after[i]).current_revision {
        Some(id) => script_owns(revisions, after[i].id, id),
        None => true,
    } by {
        if i < scripts.len() {
            assert(after[i] == scripts[i]);
        }
    }
}

/// A script can be replaced by a row with the same identifier and label
/// whose current revision, if any, is one of its own.
pub proof fn lemma_update_script_sound(
    scripts: Seq<DbScript>,
    revisions: Seq<DbRevision>,
    at: int,
    row: DbScript,
)
    requires
        tables_sound(scripts, revisions),
        0 <= at < scripts.len(),
        row.id == scripts[at].id,
        row.public_identifier@ == scripts[at].public_identifier@,
        match row.current_revision {
            Some(id) => script_owns(revisions, row.id, id),
            None => true,
        },
    ensures
        tables_sound(scripts.update(at, row), revisions),
{
    let after = scripts.update(at, row);
    assert forall|i: int, j: int| 0 <= i < j < after.len() implies (#[trigger] after[i]).id != (
    #[trigger] after[j]).id && after[i].public_identifier@ != after[j].public_identifier@ by {
        assert(after[i].id == scripts[i].id && after[j].id == scripts[j].id);
        assert(after[i].public_identifier@ == scripts[i].public_identifier@);
        assert(after[j].public_identifier@ == scripts[j].public_identifier@);
    }
    assert forall|i: int| 0 <= i < revisions.len() implies has_script(
        after,
        (#[trigger] revisions[i]).script_id,
    ) by {
        let k = choose|k: int| 0 <= k < scripts.len() && (#[trigger] scripts[k]).id == revisions[i].script_id;
        assert(after[k].id == revisions[i].script_id);
    }
    assert forall|i: int| 0 <= i < after.len() implies match (#[trigger] after[i]).current_revision {
        Some(id) => script_owns(revisions, after[i].id, id),
        None => true,
    } by {
        if i != at {
            assert(after[i] == scripts[i]);
        }
    }
}

/// A sound revision of an existing script, whose identifier is free, can be
/// put where its moment of creation belongs.
pub proof fn lemma_insert_revision_sound(
    scripts: Seq<DbScript>,
    revisions: Seq<DbRevision>,
    row: DbRevision,
)
    requires
        tables_sound(scripts, revisions),
        !has_revision(revisions, row.id),
        has_script(scripts, row.script_id),
        revision_sound(row),
    ensures
        tables_sound(scripts, revisions.insert(spec_slot_at(revisions, row.created, 0), row)),
        script_owns(
            revisions.insert(spec_slot_at(revisions, row.created, 0), row),
            row.script_id,
            row.id,
        ),
{
    let slot = spec_slot_at(revisions, row.created, 0);
    lemma_slot_at(revisions, row.created, 0);
    let after = revisions.insert(slot, row);
    revisions.insert_ensures(slot, row);
    assert forall|i: int| 0 <= i < after.len() implies (#[trigger] after[i]) == (if i < slot {
        revisions[i]
    } else if i == slot {
        row
    } else {
        revisions[i - 1]
    }) by {
        if i > slot {
            assert(after[(i - 1) + 1] == revisions[i - 1]);
        }
    }
    assert(revisions_distinct(after));
    assert forall|i: int, j: int| 0 <= i < j < after.len() implies (#[trigger] after[i]).created
        <= (#[trigger] after[j]).created by {
        if i < slot && j > slot {
            assert(revisions[i].created <= revisions[j - 1].created);
        } else if i == slot && j > slot {
            if j - 1 > slot {
                assert(revisions[slot].created <= revisions[j - 1].created);
            }
        }
    }
    assert(revisions_owned(after, scripts));
    assert forall|i: int| 0 <= i < scripts.len() implies match (#[trigger] scripts[i]).current_revision {
        Some(id) => script_owns(after, scripts[i].id, id),
        None => true,
    } by {
        match scripts[i].current_revision {
            Some(id) => {
                let k = choose|k: int|
                    0 <= k < revisions.len() && (#[trigger] revisions[k]).id == id
                        && revisions[k].script_id == scripts[i].id;
                let moved = if k < slot {
                    k
                } else {
                    k + 1
                };
                assert(after[moved] == revisions[k]);
            },
            None => {},
        }
    }
    assert(revisions_sound(after));
    assert(after[slot] == row);
}

/// A revision that no script points to can be removed.
pub proof fn lemma_remove_revision_sound(
    scripts: Seq<DbScript>,
    revisions: Seq<DbRevision>,
    at: int,
)
    requires
        tables_sound(scripts, revisions),
        0 <= at < revisions.len(),
        forall|i: int|
            0 <= i < scripts.len() ==> (#[trigger] scripts[i]).current_revision != Some(
                revisions[at].id,
            ),
    ensures
        tables_sound(scripts, revisions.remove(at)),
{
    let after = revisions.remove(at);
    revisions.remove_ensures(at);
    assert forall|i: int| 0 <= i < after.len() implies (#[trigger] after[i]) == (if i < at {
        revisions[i]
    } else {
        revisions[i + 1]
    }) by {}
    assert(revisions_distinct(after));
    assert(revisions_sorted(after));
    assert(revisions_owned(after, scripts));
    assert forall|i: int| 0 <= i < scripts.len() implies match (#[trigger] scripts[i]).current_revision {
        Some(id) => script_owns(after, scripts[i].id, id),
        None => true,
    } by {
        match scripts[i].current_revision {
            Some(id) => {
                let k = choose|k: int|
                    0 <= k < revisions.len() && (#[trigger] revisions[k]).id == id
                        && revisions[k].script_id == scripts[i].id;
                assert(k != at);
                let moved = if k < at {
                    k
                } else {
                    k - 1
                };
                assert(after[moved] == revisions[k]);
            },
            None => {},
        }
    }
    assert(revisions_sound(after));
}

/// Scripts and revisions can be dropped together as long as every script
/// that is kept keeps the revision it points to, and every revision that is
/// kept keeps its script.
pub proof fn lemma_filter_tables_sound(
    scripts: Seq<DbScript>,
    revisions: Seq<DbRevision>,
    keep_script: spec_fn(DbScript) -> bool,
    keep_revision: spec_fn(DbRevision) -> bool,
)
    requires
        tables_sound(scripts, revisions),
        forall|i: int, k: int|
            0 <= i < scripts.len() && 0 <= k < revisions.len() && keep_script(
                #[trigger] scripts[i],
            ) && scripts[i].current_revision == Some((#[trigger] revisions[k]).id)
                ==> keep_revision(revisions[k]),
        forall|i: int, k: int|
            0 <= i < scripts.len() && 0 <= k < revisions.len() && keep_revision(
                #[trigger] revisions[k],
            ) && (#[trigger] scripts[i]).id == revisions[k].script_id ==> keep_script(scripts[i]),
    ensures
        tables_sound(scripts.filter(keep_script), revisions.filter(keep_revision)),
{
    let kept_scripts = scripts.filter(keep_script);
    let kept_revisions = revisions.filter(keep_revision);
    let script_origin = lemma_filter_origins(scripts, keep_script);
    let revision_origin = lemma_filter_origins(revisions, keep_revision);
    assert forall|i: int, j: int| 0 <= i < j < kept_scripts.len() implies (
    #[trigger] kept_scripts[i]).id != (#[trigger] kept_scripts[j]).id
        && kept_scripts[i].public_identifier@ != kept_scripts[j].public_identifier@ by {
        assert(script_origin[i] < script_origin[j]);
        assert(kept_scripts[i] == scripts[script_origin[i]]);
        assert(kept_scripts[j] == scripts[script_origin[j]]);
    }
    assert forall|i: int, j: int| 0 <= i < j < kept_revisions.len() implies (
    #[trigger] kept_revisions[i]).id != (#[trigger] kept_revisions[j]).id
        && kept_revisions[i].created <= kept_revisions[j].created by {
        assert(revision_origin[i] < revision_origin[j]);
        assert(kept_revisions[i] == revisions[revision_origin[i]]);
        assert(kept_revisions[j] == revisions[revision_origin[j]]);
    }
    assert forall|i: int| 0 <= i < kept_revisions.len() implies has_script(
        kept_scripts,
        (#[trigger] kept_revisions[i]).script_id,
    ) && revision_sound(kept_revisions[i]) by {
        let from = revision_origin[i];
        assert(kept_revisions[i] == revisions[from]);
        let k = choose|k: int|
            0 <= k < scripts.len() && (#[trigger] scripts[k]).id == revisions[from].script_id;
        assert(keep_script(scripts[k]));
        let moved = choose|m: int| 0 <= m < script_origin.len() && script_origin[m] == k;
        assert(kept_scripts[moved] == scripts[k]);
    }
    assert forall|i: int| 0 <= i < kept_scripts.len() implies match (
    #[trigger] kept_scripts[i]).current_revision {
        Some(id) => script_owns(kept_revisions, kept_scripts[i].id, id),
        None => true,
    } by {
        let from = script_origin[i];
        assert(kept_scripts[i] == scripts[from]);
        match scripts[from].current_revision {
            Some(id) => {
                let k = choose|k: int|
                    0 <= k < revisions.len() && (#[trigger] revisions[k]).id == id
                        && revisions[k].script_id == scripts[from].id;
                assert(keep_revision(revisions[k]));
                let moved = choose|m: int|
                    0 <= m < revision_origin.len() && revision_origin[m] == k;
                assert(kept_revisions[moved] == revisions[k]);
            },
            None => {},
        }
    }
}

/// Among sorted revisions the first one of a script is its oldest: no
/// other revision of the script was created before it.
pub proof fn lemma_first_is_oldest(revisions: Seq<DbRevision>, script: u128)
    requires
        revisions_sorted(revisions),
    ensures
        ({
            let first = spec_oldest_at(revisions, script, 0);
            if first < revisions.len() {
                &&& 0 <= first
                &&& revisions[first].script_id == script
                &&& forall|k: int|
                    0 <= k < revisions.len() && (#[trigger] revisions[k]).script_id == script
                        ==> revisions[first].created <= revisions[k].created
            } else {
                forall|k: int|
                    0 <= k < revisions.len() ==> (#[trigger] revisions[k]).script_id != script
            }
        }),
{
    lemma_oldest_at(revisions, script, 0);
    let first = spec_oldest_at(revisions, script, 0);
    if first < revisions.len() {
        assert forall|k: int|
            0 <= k < revisions.len() && (#[trigger] revisions[k]).script_id
                == script implies revisions[first].created <= revisions[k].created by {
            if k < first {
                assert(revisions[k].script_id != script);
            }
        }
    }
}

} // verus!
