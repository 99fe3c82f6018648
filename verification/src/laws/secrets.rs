//! Laws of the secrets.

use crate::command::{Command, OtherSecrets};
use crate::ids::Ulid;
use crate::laws::tables::{
    lemma_filter_filter, lemma_ordered_contains, lemma_selected_contains, lemma_selected_pairwise,
};
use crate::order::{
    law_ordered_rows_are_in_order, law_ordering_keeps_every_row, lemma_ordered_pairwise, predicate,
    selected, Order,
};
use crate::query::{ByKey, SecretQuery};
use crate::rows::Secret;
use crate::tables::TablesView;
use crate::text_order::{is_text_before, lemma_bytes_order_total};
use vstd::prelude::*;
use vstd::utf8::{encode_utf8, encode_utf8_decode_utf8};

verus! {

/// Whether two secrets are kept by different services or under different keys.
pub open spec fn kept_apart() -> spec_fn(Secret, Secret) -> bool {
    |a: Secret, b: Secret| !(a.service_id == b.service_id && a.key@ == b.key@)
}

/// Whether no service keeps two secrets under the same key.
pub open spec fn keys_are_unique(tables: TablesView) -> bool {
    forall|i: int, j: int|
        0 <= i < j < tables.secrets.len() ==> kept_apart()(
            #[trigger] tables.secrets[i],
            #[trigger] tables.secrets[j],
        )
}

/// A secret that was stored is read back, and it is the only one of its service under its key.
pub proof fn law_stored_secret_is_read_back(before: TablesView, secret: Secret)
    ensures
        ({
            let after = (Command::InsertSecret { secret }).applied(before);
            let rows = (SecretQuery { service_id: secret.service_id }).rows(after);
            forall|row: Secret|
                row.key@ == secret.key@ ==> (#[trigger] rows.contains(row) <==> row == secret)
        }),
{
    let after = (Command::InsertSecret { secret }).applied(before);
    let query = SecretQuery { service_id: secret.service_id };
    assert forall|row: Secret| row.key@ == secret.key@ implies (#[trigger] query.rows(
        after,
    ).contains(row) <==> row == secret) by {
        lemma_after_store(before, secret, row);
        lemma_selected_contains(after.secrets, query, row);
        lemma_ordered_contains(selected(after.secrets, query), ByKey, row);
    }
}

proof fn lemma_after_store(before: TablesView, secret: Secret, row: Secret)
    ensures
        (Command::InsertSecret { secret }).applied(before).secrets.contains(row) <==> row == secret
            || (before.secrets.contains(row) && kept_apart()(row, secret)),
{
    let others = OtherSecrets { service_id: secret.service_id, key: secret.key };
    let kept = selected(before.secrets, others);
    let after = kept.push(secret);
    lemma_selected_contains(before.secrets, others, row);
    if kept.contains(row) {
        let i = choose|i: int| 0 <= i < kept.len() && kept[i] == row;
        assert(after[i] == row);
    }
    assert(after[kept.len() as int] == secret);
    if after.contains(row) && row != secret {
        let i = choose|i: int| 0 <= i < after.len() && after[i] == row;
        assert(kept[i] == row);
    }
}

/// Storing a secret leaves the secrets under other keys, and those of other services, as they
/// are.
pub proof fn law_other_secrets_are_kept(before: TablesView, secret: Secret, service_id: Ulid)
    ensures
        ({
            let after = (Command::InsertSecret { secret }).applied(before);
            let query = SecretQuery { service_id };
            &&& forall|row: Secret|
                kept_apart()(row, secret) ==> (#[trigger] query.rows(after).contains(row)
                    <==> query.rows(before).contains(row))
            &&& service_id != secret.service_id ==> query.rows(after) == query.rows(before)
        }),
{
    let after = (Command::InsertSecret { secret }).applied(before);
    let query = SecretQuery { service_id };
    let others = OtherSecrets { service_id: secret.service_id, key: secret.key };
    assert forall|row: Secret| kept_apart()(row, secret) implies (#[trigger] query.rows(
        after,
    ).contains(row) <==> query.rows(before).contains(row)) by {
        lemma_after_store(before, secret, row);
        lemma_selected_contains(after.secrets, query, row);
        lemma_ordered_contains(selected(after.secrets, query), ByKey, row);
        lemma_selected_contains(before.secrets, query, row);
        lemma_ordered_contains(selected(before.secrets, query), ByKey, row);
    }
    if service_id != secret.service_id {
        let kept = selected(before.secrets, others);
        kept.lemma_filter_push(secret, predicate(query));
        lemma_filter_filter(
            before.secrets,
            predicate(others),
            predicate(query),
            predicate(query),
        );
    }
}

/// Of two secrets that are stored under the same key the later one stands, as if the earlier one
/// had never been stored.
pub proof fn law_last_secret_wins(before: TablesView, first: Secret, second: Secret)
    requires
        !kept_apart()(first, second),
    ensures
        (Command::InsertSecret { secret: second }).applied(
            (Command::InsertSecret { secret: first }).applied(before),
        ) == (Command::InsertSecret { secret: second }).applied(before),
{
    let p = predicate(OtherSecrets { service_id: first.service_id, key: first.key });
    let q = predicate(OtherSecrets { service_id: second.service_id, key: second.key });
    lemma_filter_filter(before.secrets, p, q, q);
    before.secrets.filter(p).lemma_filter_push(first, q);
}

/// A service keeps at most one secret under each key: no command changes that.
pub proof fn law_keys_stay_unique(before: TablesView, command: Command)
    requires
        keys_are_unique(before),
    ensures
        keys_are_unique(command.applied(before)),
{
    match command {
        Command::InsertSecret { secret } => {
            let others = OtherSecrets { service_id: secret.service_id, key: secret.key };
            let kept = selected(before.secrets, others);
            let after = kept.push(secret);
            lemma_selected_pairwise(before.secrets, others, kept_apart());
            assert forall|i: int, j: int| 0 <= i < j < after.len() implies kept_apart()(
                #[trigger] after[i],
                #[trigger] after[j],
            ) by {
                assert(after[i] == kept[i]);
                if j < kept.len() {
                    assert(after[j] == kept[j]);
                } else {
                    assert(kept.contains(kept[i]));
                    lemma_selected_contains(before.secrets, others, kept[i]);
                }
            }
        },
        _ => {},
    }
}

/// The secrets of a service come by key, each key once.
pub proof fn law_secrets_come_by_key(tables: TablesView, service_id: Ulid)
    requires
        keys_are_unique(tables),
    ensures
        ({
            let rows = (SecretQuery { service_id }).rows(tables);
            forall|i: int, j: int|
                0 <= i < j < rows.len() ==> is_text_before(
                    (#[trigger] rows[i]).key@,
                    (#[trigger] rows[j]).key@,
                )
        }),
{
    let query = SecretQuery { service_id };
    let found = selected(tables.secrets, query);
    let rows = query.rows(tables);
    law_ordered_rows_are_in_order(found, ByKey);
    law_ordering_keeps_every_row(found, ByKey);
    lemma_selected_pairwise(tables.secrets, query, kept_apart());
    lemma_ordered_pairwise(found, ByKey, kept_apart());
    assert forall|i: int, j: int| 0 <= i < j < rows.len() implies is_text_before(
        (#[trigger] rows[i]).key@,
        (#[trigger] rows[j]).key@,
    ) by {
        assert(kept_apart()(rows[i], rows[j]));
        assert(!ByKey.precedes(rows[j], rows[i]));
        assert(rows.contains(rows[i]) && rows.contains(rows[j]));
        lemma_ordered_contains(found, ByKey, rows[i]);
        lemma_ordered_contains(found, ByKey, rows[j]);
        lemma_selected_contains(tables.secrets, query, rows[i]);
        lemma_selected_contains(tables.secrets, query, rows[j]);
        if !is_text_before(rows[i].key@, rows[j].key@) {
            lemma_bytes_order_total(encode_utf8(rows[i].key@), encode_utf8(rows[j].key@));
            encode_utf8_decode_utf8(rows[i].key@);
            encode_utf8_decode_utf8(rows[j].key@);
        }
    }
}

} // verus!
