//! What holds of a vault across operations.

use vstd::prelude::*;
use vstd::utf8::*;

use super::{
    aad_of, adding, dropping, find_key, find_secret, has_cred, has_label, has_name, kept_key,
    kept_keys, key_added, key_moved, key_removed, names_differ, others_differ, plain_of, removal,
    removal_fault, secret_moved, secret_set, secrets_moved, setting, unlock_for, without_secret,
    KeyModel, SecretModel, UnlockModel, VaultModel, ANY,
};
use crate::crypto::{is_sealed, seals_to};
use crate::error::Fault;

verus! {

/// No two database names share associated data. That an entry does not open under another name is then
/// up to the cipher.
pub proof fn associated_data_tells_databases_apart(a: Seq<char>, b: Seq<char>)
    requires
        aad_of(a) == aad_of(b),
    ensures
        a == b,
{
    let any = "fido2kpxc-vault-v1"@;
    let prefix = "fido2kpxc-secret:"@;
    reveal_strlit("fido2kpxc-vault-v1");
    reveal_strlit("fido2kpxc-secret:");
    let bound = |name: Seq<char>| if name == ANY@ {
        any
    } else {
        prefix + name
    };
    encode_utf8_decode_utf8(bound(a));
    encode_utf8_decode_utf8(bound(b));
    assert(bound(a) == bound(b));
    assert(any[10] == 'v');
    if a != ANY@ {
        assert((prefix + a)[10] == 's');
        assert(b != ANY@);
        assert((prefix + a).skip(17) =~= a);
        assert((prefix + b).skip(17) =~= b);
    } else if b != ANY@ {
        assert((prefix + b)[10] == 's');
    }
}

/// A database's own entry answers for it. Without one, the catch-all answers.
pub proof fn exact_name_beats_the_catch_all(vault: VaultModel, name: Seq<char>)
    ensures
        has_name(vault.secrets, name) ==> vault.secret_for(Some(name)) is Some && vault.secret_for(
            Some(name),
        )->0.database == name,
        !has_name(vault.secrets, name) ==> vault.secret_for(Some(name)) == vault.secret_for(None),
{
    found_by_name(vault.secrets, name);
}

/// With a security key that unwraps the data key, opening fails for want of a password exactly when
/// no entry answers for the database.
pub proof fn a_password_is_found_or_missing(
    vault: VaultModel,
    unlock: UnlockModel,
    database: Option<Seq<char>>,
)
    requires
        vault.data_key(unlock) is Ok,
    ensures
        vault.secret_for(database) is None <==> vault.password(unlock, database) == Err::<
            Seq<u8>,
            Fault,
        >(Fault::NoPassword { database }),
{
}

/// A new key opens whatever the key that let it in opens, and every other key opens what it did.
pub proof fn an_added_key_opens_the_same_passwords(
    before: VaultModel,
    current: UnlockModel,
    label: Seq<char>,
    new: UnlockModel,
    after: VaultModel,
)
    requires
        key_added(before, current, label, new, after),
    ensures
        forall|database: Option<Seq<char>>| #[trigger]
            after.password(new, database) == before.password(current, database),
        forall|other: UnlockModel, database: Option<Seq<char>>|
            other.cred_id != new.cred_id ==> #[trigger] after.password(other, database)
                == before.password(other, database),
{
    found_by_cred(before.keys, new.cred_id);
    key_found_after_push(before.keys, after.keys.last(), new.cred_id);
    let key = before.data_key(current)->Ok_0;
    assert(key.len() == 32);
    assert(after.data_key(new) == Ok::<Seq<u8>, Fault>(key));
    assert forall|other: UnlockModel, database: Option<Seq<char>>|
        other.cred_id != new.cred_id implies #[trigger] after.password(other, database)
        == before.password(other, database) by {
        key_found_after_push(before.keys, after.keys.last(), other.cred_id);
    }
}

/// Every key that unwraps the same data key opens the new password.
pub proof fn a_set_password_opens_with_every_key(
    before: VaultModel,
    unlock: UnlockModel,
    database: Seq<char>,
    secret: Seq<u8>,
    after: VaultModel,
)
    requires
        secret_set(before, unlock, database, secret, after),
    ensures
        forall|other: UnlockModel|
            before.data_key(other) == before.data_key(unlock) ==> #[trigger] after.password(
                other,
                Some(database),
            ) == Ok::<Seq<u8>, Fault>(secret),
{
    let rest = without_secret(before.secrets, database);
    nothing_found_under_the_dropped_name(before.secrets, database);
    secret_found_after_push(rest, after.secrets.last(), database);
}

/// Setting one password leaves what every key opens for another name, as long as that name has its
/// own entry or the catch-all is not the one that is set.
pub proof fn a_set_password_leaves_the_others(
    before: VaultModel,
    unlock: UnlockModel,
    database: Seq<char>,
    secret: Seq<u8>,
    after: VaultModel,
    name: Seq<char>,
)
    requires
        secret_set(before, unlock, database, secret, after),
        name != database,
        has_name(before.secrets, name) || database != ANY@,
    ensures
        forall|other: UnlockModel| #[trigger]
            after.password(other, Some(name)) == before.password(other, Some(name)),
        has_name(before.secrets, name) <==> has_name(after.secrets, name),
{
    let rest = without_secret(before.secrets, database);
    let entry = after.secrets.last();
    found_by_name(before.secrets, name);
    found_by_name(after.secrets, name);
    others_found_as_before(before.secrets, database, name);
    secret_found_after_push(rest, entry, name);
    if database != ANY@ {
        others_found_as_before(before.secrets, database, ANY@);
        secret_found_after_push(rest, entry, ANY@);
    }
}

/// A removed password no longer answers, so its database falls back to the catch-all. What every key
/// opens for another name stays, as long as that name has its own entry or the catch-all stays.
pub proof fn a_removed_password_falls_back_to_the_catch_all(
    before: VaultModel,
    database: Seq<char>,
    after: VaultModel,
)
    requires
        dropping(before, database) == (Ok::<(), Fault>(()), after),
    ensures
        !has_name(after.secrets, database),
        forall|unlock: UnlockModel| #[trigger]
            after.password(unlock, Some(database)) == (match after.password(unlock, None) {
                Err(Fault::NoPassword { database: d }) => Err(
                    Fault::NoPassword { database: Some(database) },
                ),
                found => found,
            }),
        database != ANY@ ==> after.secret_for(None) == before.secret_for(None),
        forall|unlock: UnlockModel, name: Seq<char>|
            name != database && (has_name(before.secrets, name) || database != ANY@)
                ==> #[trigger] after.password(unlock, Some(name)) == before.password(
                unlock,
                Some(name),
            ),
{
    nothing_found_under_the_dropped_name(before.secrets, database);
    found_by_name(after.secrets, database);
    if database != ANY@ {
        others_found_as_before(before.secrets, database, ANY@);
    }
    assert forall|unlock: UnlockModel, name: Seq<char>|
        name != database && (has_name(before.secrets, name) || database
            != ANY@) implies #[trigger] after.password(unlock, Some(name)) == before.password(
        unlock,
        Some(name),
    ) by {
        found_by_name(before.secrets, name);
        others_found_as_before(before.secrets, database, name);
    }
}

/// After a removal, every key that stays opens what the first of them opened before. So it opens what
/// it opened before itself, provided that it unwrapped the same data key as the first.
pub proof fn remaining_keys_open_every_password(
    before: VaultModel,
    label: Seq<char>,
    given: Seq<UnlockModel>,
    to: Seq<u8>,
    after: VaultModel,
    i: int,
)
    requires
        key_removed(before, label, given, to, after),
        0 <= i < kept_keys(before.keys, label).len(),
    ensures
        ({
            let kept = kept_keys(before.keys, label);
            let unlock = unlock_for(given, kept[i].cred_id)->0;
            let first = unlock_for(given, kept[0].cred_id)->0;
            &&& unlock_for(given, kept[i].cred_id) is Some
            &&& after.data_key(unlock) == Ok::<Seq<u8>, Fault>(to)
            &&& forall|database: Option<Seq<char>>| #[trigger]
                after.password(unlock, database) == before.password(first, database)
            &&& before.data_key(unlock) == Ok::<Seq<u8>, Fault>(kept_key(before, kept, given))
                ==> forall|database: Option<Seq<char>>| #[trigger]
                after.password(unlock, database) == before.password(unlock, database)
        }),
{
    let kept = kept_keys(before.keys, label);
    let from = kept_key(before, kept, given);
    assert(key_moved(kept[i], given, to, after.keys[i]));
    let unlock = unlock_for(given, kept[i].cred_id)->0;
    unlock_has_the_credential(given, kept[i].cred_id);
    key_found_first(after.keys, unlock.cred_id, i);
    let j = choose|j: int|
        0 <= j < after.keys.len() && find_key(after.keys, unlock.cred_id) == Some(after.keys[j])
            && after.keys[j].cred_id == unlock.cred_id;
    assert(key_moved(kept[j], given, to, after.keys[j]));
    unlock_has_the_credential(given, kept[j].cred_id);
    assert(kept[j].cred_id == kept[i].cred_id);
    assert(after.data_key(unlock) == Ok::<Seq<u8>, Fault>(to));
    let first = unlock_for(given, kept[0].cred_id)->0;
    assert(before.data_key(first) == Ok::<Seq<u8>, Fault>(from));
    assert forall|database: Option<Seq<char>>| #[trigger]
        after.password(unlock, database) == before.password(first, database) by {
        moved_secret_is_found(before.secrets, from, to, after.secrets, ANY@);
        if let Some(name) = database {
            moved_secret_is_found(before.secrets, from, to, after.secrets, name);
        }
    }
}

/// A removed label is gone, and a credential that no remaining key carries opens nothing.
pub proof fn a_removed_key_is_not_enrolled(
    before: VaultModel,
    label: Seq<char>,
    given: Seq<UnlockModel>,
    to: Seq<u8>,
    after: VaultModel,
    removed: UnlockModel,
)
    requires
        key_removed(before, label, given, to, after),
        !has_cred(kept_keys(before.keys, label), removed.cred_id),
    ensures
        !has_label(after.keys, label),
        forall|database: Option<Seq<char>>| #[trigger]
            after.password(removed, database) == Err::<Seq<u8>, Fault>(Fault::NotEnrolled),
{
    let kept = kept_keys(before.keys, label);
    kept_have_other_labels(before.keys, label);
    assert forall|i: int| 0 <= i < after.keys.len() implies (#[trigger] after.keys[i]).label
        != label && after.keys[i].cred_id != removed.cred_id by {
        assert(key_moved(kept[i], given, to, after.keys[i]));
        unlock_has_the_credential(given, kept[i].cred_id);
        assert(kept[i].label != label);
        assert(kept[i].cred_id != removed.cred_id);
    }
    found_by_cred(after.keys, removed.cred_id);
}

/// Database names survive the removal of a key, in order.
pub proof fn a_removed_key_takes_no_password_along(
    before: VaultModel,
    label: Seq<char>,
    given: Seq<UnlockModel>,
    to: Seq<u8>,
    after: VaultModel,
)
    requires
        key_removed(before, label, given, to, after),
    ensures
        after.secrets.len() == before.secrets.len(),
        forall|i: int|
            0 <= i < after.secrets.len() ==> (#[trigger] after.secrets[i]).database
                == before.secrets[i].database,
{
    assert forall|i: int| 0 <= i < after.secrets.len() implies (
    #[trigger] after.secrets[i]).database == before.secrets[i].database by {
        assert(secret_moved(
            before.secrets[i],
            kept_key(before, kept_keys(before.keys, label), given),
            to,
            after.secrets[i],
        ));
    }
}

/// An operation that is refused leaves the vault as it was. (Storing a password that the cipher or the
/// random source refuses has dropped the old one by then.)
pub proof fn a_refused_operation_changes_nothing(
    vault: VaultModel,
    unlock: UnlockModel,
    label: Seq<char>,
    new: UnlockModel,
    database: Seq<char>,
    secret: Seq<u8>,
    given: Seq<UnlockModel>,
    key: Result<Seq<u8>, Fault>,
    nonce: Result<Seq<u8>, Fault>,
    nonces: Seq<Result<Seq<u8>, Fault>>,
)
    ensures
        adding(vault, unlock, label, new, nonce).0 is Err ==> adding(
            vault,
            unlock,
            label,
            new,
            nonce,
        ).1 == vault,
        vault.data_key(unlock) is Err ==> setting(vault, unlock, database, secret, nonce) == (
            Err::<(), Fault>(vault.data_key(unlock)->Err_0),
            vault,
        ),
        dropping(vault, database).0 is Err ==> dropping(vault, database).1 == vault,
        removal_fault(vault, label, given) matches Some(fault) ==> removal(
            vault,
            label,
            given,
            key,
            nonces,
        ) == (Err::<(), Fault>(fault), vault),
        key is Err ==> removal(vault, label, given, key, nonces).1 == vault,
{
}

/// A password that opens was sealed under the data key for the name of its entry, and the data key was
/// wrapped under the security key's output for its credential.
pub proof fn what_opens_was_sealed_for_its_name(
    vault: VaultModel,
    unlock: UnlockModel,
    database: Option<Seq<char>>,
)
    requires
        vault.password(unlock, database) is Ok,
    ensures
        find_key(vault.keys, unlock.cred_id) is Some,
        vault.secret_for(database) is Some,
        ({
            let wrapped = find_key(vault.keys, unlock.cred_id)->0;
            let key = vault.data_key(unlock)->Ok_0;
            let entry = vault.secret_for(database)->0;
            let plain = vault.password(unlock, database)->Ok_0;
            &&& seals_to(unlock.output, wrapped.nonce, key, unlock.cred_id, wrapped.wrapped_key)
            &&& seals_to(key, entry.nonce, plain, aad_of(entry.database), entry.ciphertext)
        }),
{
    found_has_the_cred(vault.keys, unlock.cred_id);
}

/// A credential that is not enrolled opens nothing.
pub proof fn a_credential_that_is_not_enrolled_opens_nothing(
    vault: VaultModel,
    unlock: UnlockModel,
)
    requires
        !has_cred(vault.keys, unlock.cred_id),
    ensures
        forall|database: Option<Seq<char>>| #[trigger]
            vault.password(unlock, database) == Err::<Seq<u8>, Fault>(Fault::NotEnrolled),
{
    found_by_cred(vault.keys, unlock.cred_id);
}

/// An enrolled credential with a wrong output opens nothing, unless the wrapped key of its entry is
/// also what some message seals to under that output.
pub proof fn a_wrong_output_opens_nothing(vault: VaultModel, unlock: UnlockModel)
    requires
        has_cred(vault.keys, unlock.cred_id),
        ({
            let entry = find_key(vault.keys, unlock.cred_id)->0;
            !is_sealed(unlock.output, entry.nonce, entry.wrapped_key, unlock.cred_id)
        }),
    ensures
        forall|database: Option<Seq<char>>| #[trigger]
            vault.password(unlock, database) == Err::<Seq<u8>, Fault>(
                Fault::KeyRejected { label: find_key(vault.keys, unlock.cred_id)->0.label },
            ),
{
    found_by_cred(vault.keys, unlock.cred_id);
    found_has_the_cred(vault.keys, unlock.cred_id);
}

/// `after` is `before` with another ciphertext in one entry.
pub open spec fn tampered(before: VaultModel, i: int, ciphertext: Seq<u8>, after: VaultModel) -> bool {
    &&& 0 <= i < before.secrets.len()
    &&& ciphertext != before.secrets[i].ciphertext
    &&& after == before.with_secrets(
        before.secrets.update(i, SecretModel { ciphertext, ..before.secrets[i] }),
    )
}

/// A tampered ciphertext never opens to the password that was there. It opens to nothing, unless it is
/// itself what some message seals to.
pub proof fn a_tampered_password_does_not_open(
    before: VaultModel,
    i: int,
    ciphertext: Seq<u8>,
    after: VaultModel,
    unlock: UnlockModel,
    database: Option<Seq<char>>,
)
    requires
        before.wf(),
        tampered(before, i, ciphertext, after),
        before.secret_for(database) == Some(before.secrets[i]),
        before.password(unlock, database) is Ok,
    ensures
        after.password(unlock, database) != before.password(unlock, database),
        ({
            let entry = before.secrets[i];
            !is_sealed(
                before.data_key(unlock)->Ok_0,
                entry.nonce,
                ciphertext,
                aad_of(entry.database),
            ) ==> after.password(unlock, database) == Err::<Seq<u8>, Fault>(
                Fault::SecretRejected { database: entry.database },
            )
        }),
{
    same_names_are_found(before.secrets, after.secrets);
    let key = before.data_key(unlock)->Ok_0;
    let entry = before.secrets[i];
    assert(after.secrets[i] == SecretModel { ciphertext, ..entry });
    found_at(before.secrets, i);
    found_at(after.secrets, i);
    found_by_name(before.secrets, ANY@);
    found_by_name(after.secrets, ANY@);
    if let Some(name) = database {
        found_by_name(before.secrets, name);
        found_by_name(after.secrets, name);
    }
    assert(after.secret_for(database) == Some(after.secrets[i]));
    assert(after.data_key(unlock) == before.data_key(unlock));
    what_opens_was_sealed_for_its_name(before, unlock, database);
    if after.password(unlock, database) is Ok {
        what_opens_was_sealed_for_its_name(after, unlock, database);
    }
}

/// The position that a swap of `i` and `j` brings to `k`.
spec fn other_of(i: int, j: int, k: int) -> int {
    if k == i {
        j
    } else if k == j {
        i
    } else {
        k
    }
}

/// `after` is `before` with the names of two entries swapped.
pub open spec fn names_swapped(before: VaultModel, i: int, j: int, after: VaultModel) -> bool {
    &&& 0 <= i < before.secrets.len()
    &&& 0 <= j < before.secrets.len()
    &&& i != j
    &&& after == before.with_secrets(
        before.secrets.update(
            i,
            SecretModel { database: before.secrets[j].database, ..before.secrets[i] },
        ).update(j, SecretModel { database: before.secrets[i].database, ..before.secrets[j] }),
    )
}

/// After the names of two entries were swapped, neither opens under the other's name, unless its
/// ciphertext is also what some message seals to for that name.
pub proof fn a_swapped_name_does_not_open(
    before: VaultModel,
    i: int,
    j: int,
    after: VaultModel,
    unlock: UnlockModel,
)
    requires
        before.wf(),
        names_swapped(before, i, j, after),
        before.data_key(unlock) is Ok,
        !is_sealed(
            before.data_key(unlock)->Ok_0,
            before.secrets[i].nonce,
            before.secrets[i].ciphertext,
            aad_of(before.secrets[j].database),
        ),
    ensures
        after.password(unlock, Some(before.secrets[j].database)) == Err::<Seq<u8>, Fault>(
            Fault::SecretRejected { database: before.secrets[j].database },
        ),
{
    let (a, b) = (before.secrets[i].database, before.secrets[j].database);
    assert(names_differ(after.secrets)) by {
        assert forall|m: int, n: int| 0 <= m < n < after.secrets.len() implies (
        #[trigger] after.secrets[m]).database != (#[trigger] after.secrets[n]).database by {
            let m0 = other_of(i, j, m);
            let n0 = other_of(i, j, n);
            assert(after.secrets[m].database == before.secrets[m0].database);
            assert(after.secrets[n].database == before.secrets[n0].database);
        }
    }
    assert(after.secrets[i].database == b);
    found_at(after.secrets, i);
    assert(after.data_key(unlock) == before.data_key(unlock));
}

/// No credential is enrolled twice.
pub open spec fn creds_differ(keys: Seq<KeyModel>) -> bool {
    forall|i: int, j: int|
        0 <= i < j < keys.len() ==> (#[trigger] keys[i]).cred_id != (#[trigger] keys[j]).cred_id
}

/// `after` is `before` with the credentials of two keys swapped.
pub open spec fn creds_swapped(before: VaultModel, i: int, j: int, after: VaultModel) -> bool {
    &&& 0 <= i < before.keys.len()
    &&& 0 <= j < before.keys.len()
    &&& i != j
    &&& after == before.with_keys(
        before.keys.update(
            i,
            KeyModel { cred_id: before.keys[j].cred_id, ..before.keys[i] },
        ).update(j, KeyModel { cred_id: before.keys[i].cred_id, ..before.keys[j] }),
    )
}

/// After the credentials of two keys were swapped, neither wrapped key unwraps for the other's
/// credential, whatever the security keys' outputs, unless it is also what some message seals to for
/// that credential.
pub proof fn a_swapped_credential_does_not_unwrap(
    before: VaultModel,
    i: int,
    j: int,
    after: VaultModel,
    unlock: UnlockModel,
)
    requires
        creds_differ(before.keys),
        creds_swapped(before, i, j, after),
        unlock.cred_id == before.keys[j].cred_id,
        !is_sealed(
            unlock.output,
            before.keys[i].nonce,
            before.keys[i].wrapped_key,
            before.keys[j].cred_id,
        ),
    ensures
        forall|database: Option<Seq<char>>| #[trigger]
            after.password(unlock, database) == Err::<Seq<u8>, Fault>(
                Fault::KeyRejected { label: before.keys[i].label },
            ),
{
    assert(creds_differ(after.keys)) by {
        assert forall|m: int, n: int| 0 <= m < n < after.keys.len() implies (
        #[trigger] after.keys[m]).cred_id != (#[trigger] after.keys[n]).cred_id by {
            let m0 = other_of(i, j, m);
            let n0 = other_of(i, j, n);
            assert(after.keys[m].cred_id == before.keys[m0].cred_id);
            assert(after.keys[n].cred_id == before.keys[n0].cred_id);
        }
    }
    assert(after.keys[i].cred_id == unlock.cred_id);
    key_found_at(after.keys, i);
}

/// `after` is `before` with a password set by a key that unwraps `key`.
pub open spec fn password_set(key: Seq<u8>, before: VaultModel, after: VaultModel) -> bool {
    exists|unlock: UnlockModel, database: Seq<char>, secret: Seq<u8>|
        #[trigger] secret_set(before, unlock, database, secret, after) && before.data_key(unlock)
            == Ok::<Seq<u8>, Fault>(key)
}

/// Each vault but the first is the one before with a password set by a key that unwraps `key`.
pub open spec fn passwords_set(key: Seq<u8>, vaults: Seq<VaultModel>) -> bool
    decreases vaults.len(),
{
    vaults.len() <= 1 || (passwords_set(key, vaults.drop_last()) && password_set(
        key,
        vaults[vaults.len() - 2],
        vaults.last(),
    ))
}

/// Every password opens under `key`.
pub open spec fn opens_under(secrets: Seq<SecretModel>, key: Seq<u8>) -> bool {
    forall|i: int| 0 <= i < secrets.len() ==> plain_of(key, #[trigger] secrets[i]) is Ok
}

/// After a removal, and after any passwords that the remaining keys set then, every password is under
/// the new data key. An old data key opens none of them, unless a ciphertext is also what some message
/// seals to under it.
pub proof fn an_old_data_key_opens_nothing(
    before: VaultModel,
    label: Seq<char>,
    given: Seq<UnlockModel>,
    to: Seq<u8>,
    vaults: Seq<VaultModel>,
    old_key: Seq<u8>,
)
    requires
        vaults.len() > 0,
        key_removed(before, label, given, to, vaults[0]),
        passwords_set(to, vaults),
        forall|i: int|
            0 <= i < vaults.last().secrets.len() ==> {
                let entry = #[trigger] vaults.last().secrets[i];
                !is_sealed(old_key, entry.nonce, entry.ciphertext, aad_of(entry.database))
            },
    ensures
        opens_under(vaults.last().secrets, to),
        forall|i: int|
            0 <= i < vaults.last().secrets.len() ==> plain_of(
                old_key,
                #[trigger] vaults.last().secrets[i],
            ) == Err::<Seq<u8>, Fault>(
                Fault::SecretRejected { database: vaults.last().secrets[i].database },
            ),
{
    stays_under_the_new_key(before, label, given, to, vaults);
}

proof fn stays_under_the_new_key(
    before: VaultModel,
    label: Seq<char>,
    given: Seq<UnlockModel>,
    to: Seq<u8>,
    vaults: Seq<VaultModel>,
)
    requires
        vaults.len() > 0,
        key_removed(before, label, given, to, vaults[0]),
        passwords_set(to, vaults),
    ensures
        opens_under(vaults.last().secrets, to),
    decreases vaults.len(),
{
    if vaults.len() == 1 {
        let from = kept_key(before, kept_keys(before.keys, label), given);
        assert forall|i: int| 0 <= i < vaults[0].secrets.len() implies plain_of(
            to,
            #[trigger] vaults[0].secrets[i],
        ) is Ok by {
            assert(secret_moved(before.secrets[i], from, to, vaults[0].secrets[i]));
        }
    } else {
        let earlier = vaults.drop_last();
        stays_under_the_new_key(before, label, given, to, earlier);
        let (unlock, database, secret) = choose|
            unlock: UnlockModel,
            database: Seq<char>,
            secret: Seq<u8>,
        |
            #[trigger] secret_set(earlier.last(), unlock, database, secret, vaults.last())
                && earlier.last().data_key(unlock) == Ok::<Seq<u8>, Fault>(to);
        let had = earlier.last().secrets;
        others_differ(had, database);
        let rest = without_secret(had, database);
        assert forall|i: int| 0 <= i < vaults.last().secrets.len() implies plain_of(
            to,
            #[trigger] vaults.last().secrets[i],
        ) is Ok by {
            if i < rest.len() {
                assert(vaults.last().secrets[i] == rest[i]);
                assert(had.contains(rest[i]));
            }
        }
    }
}

proof fn found_has_the_cred(keys: Seq<KeyModel>, cred_id: Seq<u8>)
    ensures
        find_key(keys, cred_id) matches Some(entry) ==> entry.cred_id == cred_id,
    decreases keys.len(),
{
    if keys.len() > 0 {
        found_has_the_cred(keys.skip(1), cred_id);
    }
}

proof fn found_at(secrets: Seq<SecretModel>, i: int)
    requires
        names_differ(secrets),
        0 <= i < secrets.len(),
    ensures
        find_secret(secrets, secrets[i].database) == Some(secrets[i]),
    decreases secrets.len(),
{
    if i > 0 {
        let rest = secrets.skip(1);
        assert(secrets[0].database != secrets[i].database);
        assert(names_differ(rest)) by {
            assert forall|m: int, n: int| 0 <= m < n < rest.len() implies (
            #[trigger] rest[m]).database != (#[trigger] rest[n]).database by {
                assert(rest[m] == secrets[m + 1] && rest[n] == secrets[n + 1]);
            }
        }
        found_at(rest, i - 1);
    }
}

proof fn key_found_at(keys: Seq<KeyModel>, i: int)
    requires
        creds_differ(keys),
        0 <= i < keys.len(),
    ensures
        find_key(keys, keys[i].cred_id) == Some(keys[i]),
    decreases keys.len(),
{
    if i > 0 {
        let rest = keys.skip(1);
        assert(keys[0].cred_id != keys[i].cred_id);
        assert(creds_differ(rest)) by {
            assert forall|m: int, n: int| 0 <= m < n < rest.len() implies (
            #[trigger] rest[m]).cred_id != (#[trigger] rest[n]).cred_id by {
                assert(rest[m] == keys[m + 1] && rest[n] == keys[n + 1]);
            }
        }
        key_found_at(rest, i - 1);
    }
}

proof fn same_names_are_found(before: Seq<SecretModel>, after: Seq<SecretModel>)
    requires
        names_differ(before),
        before.len() == after.len(),
        forall|j: int|
            0 <= j < before.len() ==> (#[trigger] after[j]).database == before[j].database,
    ensures
        names_differ(after),
        forall|name: Seq<char>| #[trigger] has_name(before, name) <==> has_name(after, name),
{
    assert forall|m: int, n: int| 0 <= m < n < after.len() implies (#[trigger] after[m]).database
        != (#[trigger] after[n]).database by {
        assert(before[m].database != before[n].database);
    }
    assert forall|name: Seq<char>| #[trigger] has_name(before, name) <==> has_name(
        after,
        name,
    ) by {
        if has_name(before, name) {
            let j = choose|j: int| 0 <= j < before.len() && (#[trigger] before[j]).database == name;
            assert(after[j].database == name);
        }
        if has_name(after, name) {
            let j = choose|j: int| 0 <= j < after.len() && (#[trigger] after[j]).database == name;
            assert(before[j].database == name);
        }
    }
}

proof fn found_by_name(secrets: Seq<SecretModel>, name: Seq<char>)
    ensures
        find_secret(secrets, name) is Some <==> has_name(secrets, name),
        find_secret(secrets, name) matches Some(entry) ==> entry.database == name,
    decreases secrets.len(),
{
    if secrets.len() > 0 {
        let rest = secrets.skip(1);
        found_by_name(rest, name);
        if has_name(rest, name) {
            let i = choose|i: int| 0 <= i < rest.len() && (#[trigger] rest[i]).database == name;
            assert(secrets[i + 1].database == name);
        }
        if has_name(secrets, name) && secrets[0].database != name {
            let i = choose|i: int|
                0 <= i < secrets.len() && (#[trigger] secrets[i]).database == name;
            assert(rest[i - 1].database == name);
        }
    }
}

proof fn found_by_cred(keys: Seq<KeyModel>, cred_id: Seq<u8>)
    ensures
        find_key(keys, cred_id) is Some <==> has_cred(keys, cred_id),
    decreases keys.len(),
{
    if keys.len() > 0 {
        let rest = keys.skip(1);
        found_by_cred(rest, cred_id);
        if has_cred(rest, cred_id) {
            let i = choose|i: int| 0 <= i < rest.len() && (#[trigger] rest[i]).cred_id == cred_id;
            assert(keys[i + 1].cred_id == cred_id);
        }
        if has_cred(keys, cred_id) && keys[0].cred_id != cred_id {
            let i = choose|i: int| 0 <= i < keys.len() && (#[trigger] keys[i]).cred_id == cred_id;
            assert(rest[i - 1].cred_id == cred_id);
        }
    }
}

proof fn key_found_after_push(keys: Seq<KeyModel>, entry: KeyModel, cred_id: Seq<u8>)
    ensures
        find_key(keys.push(entry), cred_id) == (if find_key(keys, cred_id) is Some {
            find_key(keys, cred_id)
        } else if entry.cred_id == cred_id {
            Some(entry)
        } else {
            None
        }),
    decreases keys.len(),
{
    let more = keys.push(entry);
    if keys.len() == 0 {
        assert(more[0] == entry);
        assert(more.skip(1) =~= keys);
    } else {
        assert(more[0] == keys[0]);
        assert(more.skip(1) =~= keys.skip(1).push(entry));
        key_found_after_push(keys.skip(1), entry, cred_id);
    }
}

proof fn key_found_first(keys: Seq<KeyModel>, cred_id: Seq<u8>, i: int)
    requires
        0 <= i < keys.len(),
        keys[i].cred_id == cred_id,
    ensures
        exists|j: int|
            0 <= j < keys.len() && find_key(keys, cred_id) == Some(keys[j])
                && #[trigger] keys[j].cred_id == cred_id,
    decreases keys.len(),
{
    if keys[0].cred_id != cred_id {
        let rest = keys.skip(1);
        key_found_first(rest, cred_id, i - 1);
        let j = choose|j: int|
            0 <= j < rest.len() && find_key(rest, cred_id) == Some(rest[j])
                && #[trigger] rest[j].cred_id == cred_id;
        assert(keys[j + 1].cred_id == cred_id);
    }
}

proof fn secret_found_after_push(secrets: Seq<SecretModel>, entry: SecretModel, name: Seq<char>)
    ensures
        find_secret(secrets.push(entry), name) == (if find_secret(secrets, name) is Some {
            find_secret(secrets, name)
        } else if entry.database == name {
            Some(entry)
        } else {
            None
        }),
    decreases secrets.len(),
{
    let more = secrets.push(entry);
    if secrets.len() == 0 {
        assert(more[0] == entry);
        assert(more.skip(1) =~= secrets);
    } else {
        assert(more[0] == secrets[0]);
        assert(more.skip(1) =~= secrets.skip(1).push(entry));
        secret_found_after_push(secrets.skip(1), entry, name);
    }
}

proof fn nothing_found_under_the_dropped_name(secrets: Seq<SecretModel>, name: Seq<char>)
    ensures
        find_secret(without_secret(secrets, name), name) is None,
    decreases secrets.len(),
{
    if secrets.len() > 0 {
        let rest = without_secret(secrets.skip(1), name);
        nothing_found_under_the_dropped_name(secrets.skip(1), name);
        if secrets[0].database != name {
            assert((seq![secrets[0]] + rest).skip(1) =~= rest);
        }
    }
}

proof fn others_found_as_before(secrets: Seq<SecretModel>, dropped: Seq<char>, name: Seq<char>)
    requires
        name != dropped,
    ensures
        find_secret(without_secret(secrets, dropped), name) == find_secret(secrets, name),
    decreases secrets.len(),
{
    if secrets.len() > 0 {
        let rest = without_secret(secrets.skip(1), dropped);
        others_found_as_before(secrets.skip(1), dropped, name);
        if secrets[0].database != dropped {
            assert((seq![secrets[0]] + rest).skip(1) =~= rest);
        }
    }
}

proof fn moved_secret_is_found(
    before: Seq<SecretModel>,
    from: Seq<u8>,
    to: Seq<u8>,
    after: Seq<SecretModel>,
    name: Seq<char>,
)
    requires
        secrets_moved(before, from, to, after),
    ensures
        find_secret(before, name) is Some <==> find_secret(after, name) is Some,
        find_secret(before, name) matches Some(entry) ==> secret_moved(
            entry,
            from,
            to,
            find_secret(after, name)->0,
        ),
    decreases before.len(),
{
    if before.len() > 0 {
        assert(secret_moved(before[0], from, to, after[0]));
        assert(secrets_moved(before.skip(1), from, to, after.skip(1))) by {
            assert forall|i: int| 0 <= i < after.skip(1).len() implies secret_moved(
                before.skip(1)[i],
                from,
                to,
                #[trigger] after.skip(1)[i],
            ) by {
                assert(secret_moved(before[i + 1], from, to, after[i + 1]));
            }
        }
        moved_secret_is_found(before.skip(1), from, to, after.skip(1), name);
    }
}

proof fn unlock_has_the_credential(given: Seq<UnlockModel>, cred_id: Seq<u8>)
    ensures
        unlock_for(given, cred_id) matches Some(unlock) ==> unlock.cred_id == cred_id,
    decreases given.len(),
{
    if given.len() > 0 {
        unlock_has_the_credential(given.skip(1), cred_id);
    }
}

proof fn kept_have_other_labels(keys: Seq<KeyModel>, label: Seq<char>)
    ensures
        forall|i: int|
            0 <= i < kept_keys(keys, label).len() ==> (#[trigger] kept_keys(keys, label)[i]).label
                != label,
    decreases keys.len(),
{
    if keys.len() > 0 {
        let rest = kept_keys(keys.skip(1), label);
        kept_have_other_labels(keys.skip(1), label);
        assert forall|i: int| 0 <= i < kept_keys(keys, label).len() implies (
        #[trigger] kept_keys(keys, label)[i]).label != label by {
            if keys[0].label != label && i > 0 {
                assert(kept_keys(keys, label)[i] == rest[i - 1]);
            }
        }
    }
}

} // verus!
