//! When each operation on a vault succeeds, and what it leaves, said of its entries one by one.

use vstd::prelude::*;

use super::{
    aad_of, adding, creation, dropping, find_key, find_secret, good_draws, has_label, invalid, kept_fault,
    kept_keys, names_that, plain_of, removal, secret_fault, setting, unlock_for, unlocks,
    without_secret, KeyModel, SecretModel, Unlock, UnlockModel, Vault, VaultModel, ANY,
};
use crate::crypto::{encrypted, seals_alone, sealed_bytes};
use crate::error::Fault;

verus! {

/// The first key that carries a credential is the one that is found for it.
pub proof fn the_first_key_of_a_credential_is_found(
    keys: Seq<KeyModel>,
    cred_id: Seq<u8>,
    i: int,
)
    requires
        0 <= i < keys.len(),
        keys[i].cred_id == cred_id,
        forall|j: int| 0 <= j < i ==> (#[trigger] keys[j]).cred_id != cred_id,
    ensures
        find_key(keys, cred_id) == Some(keys[i]),
    decreases i,
{
    if i > 0 {
        assert(keys[0].cred_id != cred_id);
        let rest = keys.skip(1);
        assert forall|j: int| 0 <= j < i - 1 implies (#[trigger] rest[j]).cred_id != cred_id by {
            assert(rest[j] == keys[j + 1]);
        }
        the_first_key_of_a_credential_is_found(rest, cred_id, i - 1);
    }
}

/// No key is found for a credential that none carries.
pub proof fn no_key_of_another_credential_is_found(keys: Seq<KeyModel>, cred_id: Seq<u8>)
    requires
        forall|j: int| 0 <= j < keys.len() ==> (#[trigger] keys[j]).cred_id != cred_id,
    ensures
        find_key(keys, cred_id) is None,
    decreases keys.len(),
{
    if keys.len() > 0 {
        assert(keys[0].cred_id != cred_id);
        let rest = keys.skip(1);
        assert forall|j: int| 0 <= j < rest.len() implies (#[trigger] rest[j]).cred_id
            != cred_id by {
            assert(rest[j] == keys[j + 1]);
        }
        no_key_of_another_credential_is_found(rest, cred_id);
    }
}

/// The first entry with a name is the one that is found under it.
pub proof fn the_first_entry_of_a_name_is_found(
    secrets: Seq<SecretModel>,
    name: Seq<char>,
    i: int,
)
    requires
        0 <= i < secrets.len(),
        secrets[i].database == name,
        forall|j: int| 0 <= j < i ==> (#[trigger] secrets[j]).database != name,
    ensures
        find_secret(secrets, name) == Some(secrets[i]),
    decreases i,
{
    if i > 0 {
        assert(secrets[0].database != name);
        let rest = secrets.skip(1);
        assert forall|j: int| 0 <= j < i - 1 implies (#[trigger] rest[j]).database != name by {
            assert(rest[j] == secrets[j + 1]);
        }
        the_first_entry_of_a_name_is_found(rest, name, i - 1);
    }
}

/// No entry is found under a name that none has.
pub proof fn no_entry_of_another_name_is_found(secrets: Seq<SecretModel>, name: Seq<char>)
    requires
        forall|j: int| 0 <= j < secrets.len() ==> (#[trigger] secrets[j]).database != name,
    ensures
        find_secret(secrets, name) is None,
    decreases secrets.len(),
{
    if secrets.len() > 0 {
        assert(secrets[0].database != name);
        let rest = secrets.skip(1);
        assert forall|j: int| 0 <= j < rest.len() implies (#[trigger] rest[j]).database
            != name by {
            assert(rest[j] == secrets[j + 1]);
        }
        no_entry_of_another_name_is_found(rest, name);
    }
}

/// The first unlock for a credential is the one that is taken.
pub proof fn the_first_unlock_is_taken(given: Seq<UnlockModel>, cred_id: Seq<u8>, i: int)
    requires
        0 <= i < given.len(),
        given[i].cred_id == cred_id,
        forall|j: int| 0 <= j < i ==> (#[trigger] given[j]).cred_id != cred_id,
    ensures
        unlock_for(given, cred_id) == Some(given[i]),
    decreases i,
{
    if i > 0 {
        assert(given[0].cred_id != cred_id);
        let rest = given.skip(1);
        assert forall|j: int| 0 <= j < i - 1 implies (#[trigger] rest[j]).cred_id != cred_id by {
            assert(rest[j] == given[j + 1]);
        }
        the_first_unlock_is_taken(rest, cred_id, i - 1);
    }
}

/// No unlock is taken for a credential that none has.
pub proof fn no_unlock_of_another_credential_is_taken(given: Seq<UnlockModel>, cred_id: Seq<u8>)
    requires
        forall|j: int| 0 <= j < given.len() ==> (#[trigger] given[j]).cred_id != cred_id,
    ensures
        unlock_for(given, cred_id) is None,
    decreases given.len(),
{
    if given.len() > 0 {
        assert(given[0].cred_id != cred_id);
        let rest = given.skip(1);
        assert forall|j: int| 0 <= j < rest.len() implies (#[trigger] rest[j]).cred_id
            != cred_id by {
            assert(rest[j] == given[j + 1]);
        }
        no_unlock_of_another_credential_is_taken(rest, cred_id);
    }
}

/// An entry answers for its own name. The first entry under `*` answers where no database is named, and
/// for a name that no entry has. Without it, nothing does.
pub proof fn the_entry_of_a_name_answers(vault: VaultModel, name: Seq<char>, i: int)
    requires
        0 <= i < vault.secrets.len(),
        forall|j: int|
            0 <= j < i ==> (#[trigger] vault.secrets[j]).database != vault.secrets[i].database,
    ensures
        vault.secret_for(Some(vault.secrets[i].database)) == Some(vault.secrets[i]),
        vault.secrets[i].database == "*"@ ==> vault.secret_for(None) == Some(vault.secrets[i]),
        vault.secrets[i].database == "*"@ && (forall|j: int|
            0 <= j < vault.secrets.len() ==> (#[trigger] vault.secrets[j]).database != name)
            ==> vault.secret_for(Some(name)) == Some(vault.secrets[i]),
{
    the_first_entry_of_a_name_is_found(vault.secrets, vault.secrets[i].database, i);
    if forall|j: int| 0 <= j < vault.secrets.len() ==> (#[trigger] vault.secrets[j]).database != name {
        no_entry_of_another_name_is_found(vault.secrets, name);
    }
}

/// Without an entry of its own and without one under `*`, a database has no password.
pub proof fn nothing_answers_for_a_name_without_an_entry(
    vault: VaultModel,
    database: Option<Seq<char>>,
)
    requires
        forall|j: int|
            0 <= j < vault.secrets.len() ==> (#[trigger] vault.secrets[j]).database != "*"@
                && database != Some(vault.secrets[j].database),
    ensures
        vault.secret_for(database) is None,
{
    no_entry_of_another_name_is_found(vault.secrets, ANY@);
    if let Some(name) = database {
        assert forall|j: int| 0 <= j < vault.secrets.len() implies (
        #[trigger] vault.secrets[j]).database != name by {
            assert(database != Some(vault.secrets[j].database));
        }
        no_entry_of_another_name_is_found(vault.secrets, name);
    }
}

/// A password opens, whatever its length, when its entry is what it alone seals to under the data key.
pub proof fn a_sealed_password_opens(key: Seq<u8>, entry: SecretModel, plain: Seq<u8>)
    requires
        seals_alone(key, entry.nonce, plain, aad_of(entry.database), entry.ciphertext),
        entry.ciphertext.len() == plain.len() + 16,
        plain.len() <= 274877906816,
    ensures
        plain_of(key, entry) == Ok::<Seq<u8>, Fault>(plain),
{
}

/// The data key unwraps when the wrapped key of the credential's entry is what it alone seals to under
/// the security key's output.
pub proof fn a_wrapped_key_unwraps(
    vault: VaultModel,
    unlock: UnlockModel,
    i: int,
    key: Seq<u8>,
)
    requires
        0 <= i < vault.keys.len(),
        vault.keys[i].cred_id == unlock.cred_id,
        forall|j: int| 0 <= j < i ==> (#[trigger] vault.keys[j]).cred_id != unlock.cred_id,
        key.len() == 32,
        vault.keys[i].wrapped_key.len() == 48,
        seals_alone(
            unlock.output,
            vault.keys[i].nonce,
            key,
            unlock.cred_id,
            vault.keys[i].wrapped_key,
        ),
    ensures
        vault.data_key(unlock) == Ok::<Seq<u8>, Fault>(key),
{
    the_first_key_of_a_credential_is_found(vault.keys, unlock.cred_id, i);
}

/// A key that unwraps the data key opens every password that is sealed under it, and a failure names
/// the database.
pub proof fn opening_yields_the_password_of_the_entry(
    vault: VaultModel,
    unlock: UnlockModel,
    database: Option<Seq<char>>,
    key: Seq<u8>,
)
    requires
        vault.data_key(unlock) == Ok::<Seq<u8>, Fault>(key),
    ensures
        vault.secret_for(database) matches Some(entry) ==> vault.password(unlock, database)
            == plain_of(key, entry),
        vault.secret_for(database) is None ==> vault.password(unlock, database) == Err::<
            Seq<u8>,
            Fault,
        >(Fault::NoPassword { database }),
        vault.secret_for(database) is Some && vault.password(unlock, database) is Err
            ==> vault.password(unlock, database) == Err::<Seq<u8>, Fault>(
            Fault::SecretRejected { database: vault.secret_for(database)->0.database },
        ),
{
}

/// A key that does not unwrap the data key opens nothing, and says why.
pub proof fn a_key_that_does_not_unwrap_opens_nothing(
    vault: VaultModel,
    unlock: UnlockModel,
    database: Option<Seq<char>>,
    fault: Fault,
)
    requires
        vault.data_key(unlock) == Err::<Seq<u8>, Fault>(fault),
    ensures
        vault.password(unlock, database) == Err::<Seq<u8>, Fault>(fault),
{
}

/// Every message up to the cipher's limit encrypts, and a longer one does not.
pub proof fn every_message_within_the_limit_encrypts(
    key: Seq<u8>,
    nonce: Seq<u8>,
    message: Seq<u8>,
    aad: Seq<u8>,
)
    ensures
        encrypted(key, nonce, message, aad) is Some <==> message.len() <= 274877906816,
        encrypted(key, nonce, message, aad) matches Some(sealed) ==> sealed == sealed_bytes(
            key,
            nonce,
            message,
            aad,
        ),
{
}

/// A vault is created whenever the draws succeed and the password is within the cipher's limit. It
/// holds one key and one password, under the data key that was drawn.
pub proof fn a_vault_is_created(
    salt: Seq<u8>,
    label: Seq<char>,
    unlock: UnlockModel,
    database: Seq<char>,
    secret: Seq<u8>,
    key: Result<Seq<u8>, Fault>,
    seal_nonce: Result<Seq<u8>, Fault>,
    wrap_nonce: Result<Seq<u8>, Fault>,
)
    ensures
        ({
            let r = creation(salt, label, unlock, database, secret, key, seal_nonce, wrap_nonce);
            &&& r is Ok <==> key is Ok && seal_nonce is Ok && wrap_nonce is Ok && secret.len()
                <= 274877906816
            &&& key matches Err(fault) ==> r == Err::<VaultModel, Fault>(fault)
            &&& r matches Ok(vault) ==> {
                &&& vault.version == 2
                &&& vault.salt == salt
                &&& vault.keys.len() == 1
                &&& vault.keys[0].label == label
                &&& vault.keys[0].cred_id == unlock.cred_id
                &&& vault.keys[0].nonce == wrap_nonce->Ok_0
                &&& vault.keys[0].wrapped_key == sealed_bytes(
                    unlock.output,
                    wrap_nonce->Ok_0,
                    key->Ok_0,
                    unlock.cred_id,
                )
                &&& vault.secrets.len() == 1
                &&& vault.secrets[0].database == database
                &&& vault.secrets[0].nonce == seal_nonce->Ok_0
                &&& vault.secrets[0].ciphertext == sealed_bytes(
                    key->Ok_0,
                    seal_nonce->Ok_0,
                    secret,
                    aad_of(database),
                )
            }
        }),
{
}

/// A key is added exactly when its label and its credential are new, the current key unwraps the data
/// key, and the draw succeeds. The new key comes last, and nothing else changes.
pub proof fn a_new_key_is_added(
    vault: VaultModel,
    current: UnlockModel,
    label: Seq<char>,
    new: UnlockModel,
    nonce: Result<Seq<u8>, Fault>,
)
    ensures
        ({
            let (end, after) = adding(vault, current, label, new, nonce);
            let taken = exists|i: int|
                0 <= i < vault.keys.len() && (#[trigger] vault.keys[i]).label == label;
            let enrolled = exists|i: int|
                0 <= i < vault.keys.len() && (#[trigger] vault.keys[i]).cred_id == new.cred_id;
            &&& end is Ok <==> !taken && !enrolled && vault.data_key(current) is Ok && nonce is Ok
            &&& taken ==> end == Err::<(), Fault>(Fault::LabelExists { label })
            &&& !taken && enrolled ==> end == Err::<(), Fault>(Fault::AlreadyEnrolled)
            &&& !taken && !enrolled && vault.data_key(current) is Err ==> end == Err::<(), Fault>(
                vault.data_key(current)->Err_0,
            )
            &&& end is Err ==> after == vault
            &&& end is Ok ==> {
                &&& after.version == vault.version
                &&& after.salt == vault.salt
                &&& after.secrets == vault.secrets
                &&& after.keys == vault.keys.push(
                    KeyModel {
                        label,
                        cred_id: new.cred_id,
                        nonce: nonce->Ok_0,
                        wrapped_key: sealed_bytes(
                            new.output,
                            nonce->Ok_0,
                            vault.data_key(current)->Ok_0,
                            new.cred_id,
                        ),
                    },
                )
            }
        }),
{
}

/// A password is stored exactly when the key unwraps the data key, the draw succeeds, and the password
/// is within the cipher's limit. It takes the place of every entry with its name, and comes last.
pub proof fn a_password_is_stored(
    vault: VaultModel,
    unlock: UnlockModel,
    database: Seq<char>,
    secret: Seq<u8>,
    nonce: Result<Seq<u8>, Fault>,
)
    ensures
        ({
            let (end, after) = setting(vault, unlock, database, secret, nonce);
            &&& end is Ok <==> vault.data_key(unlock) is Ok && nonce is Ok && secret.len()
                <= 274877906816
            &&& vault.data_key(unlock) matches Err(fault) ==> end == Err::<(), Fault>(fault)
                && after == vault
            &&& after.version == vault.version
            &&& after.salt == vault.salt
            &&& after.keys == vault.keys
            &&& end is Ok ==> after.secrets == vault.secrets.filter(
                |s: SecretModel| s.database != database,
            ).push(
                SecretModel {
                    database,
                    nonce: nonce->Ok_0,
                    ciphertext: sealed_bytes(
                        vault.data_key(unlock)->Ok_0,
                        nonce->Ok_0,
                        secret,
                        aad_of(database),
                    ),
                },
            )
        }),
{
    others_are_kept(vault.secrets, database);
}

/// A password is dropped exactly when it is stored and another one is left. Every other entry stays, in
/// order, and nothing else changes.
pub proof fn a_password_is_dropped(vault: VaultModel, database: Seq<char>)
    ensures
        ({
            let (end, after) = dropping(vault, database);
            let stored = exists|i: int|
                0 <= i < vault.secrets.len() && (#[trigger] vault.secrets[i]).database == database;
            &&& end is Ok <==> stored && vault.secrets.len() > 1
            &&& !stored ==> end == Err::<(), Fault>(Fault::NotStored { database })
            &&& stored && vault.secrets.len() <= 1 ==> end == Err::<(), Fault>(Fault::LastPassword)
            &&& end is Err ==> after == vault
            &&& after.version == vault.version
            &&& after.salt == vault.salt
            &&& after.keys == vault.keys
            &&& end is Ok ==> after.secrets == vault.secrets.filter(
                |s: SecretModel| s.database != database,
            )
        }),
{
    others_are_kept(vault.secrets, database);
}

/// The entries that are left without a name are those with other names, in order.
pub proof fn others_are_kept(secrets: Seq<SecretModel>, name: Seq<char>)
    ensures
        without_secret(secrets, name) == secrets.filter(|s: SecretModel| s.database != name),
    decreases secrets.len(),
{
    let other = |s: SecretModel| s.database != name;
    if secrets.len() == 0 {
        reveal(Seq::filter);
        assert(without_secret(secrets, name) =~= secrets.filter(other));
    } else {
        let rest = secrets.skip(1);
        others_are_kept(rest, name);
        let head = seq![secrets[0]];
        assert(secrets =~= head + rest);
        Seq::filter_distributes_over_add(head, rest, other);
        assert(head.filter(other) =~= if other(secrets[0]) {
            head
        } else {
            Seq::empty()
        }) by {
            reveal(Seq::filter);
            assert(head.drop_last() =~= Seq::<SecretModel>::empty());
            assert(head.drop_last().filter(other) =~= Seq::<SecretModel>::empty());
        }
        assert(without_secret(secrets, name) =~= secrets.filter(other));
    }
}

/// The keys that stay are those with other labels, in order.
pub proof fn other_labels_are_kept(keys: Seq<KeyModel>, label: Seq<char>)
    ensures
        kept_keys(keys, label) == keys.filter(|k: KeyModel| k.label != label),
    decreases keys.len(),
{
    let other = |k: KeyModel| k.label != label;
    if keys.len() == 0 {
        reveal(Seq::filter);
        assert(kept_keys(keys, label) =~= keys.filter(other));
    } else {
        let rest = keys.skip(1);
        other_labels_are_kept(rest, label);
        let head = seq![keys[0]];
        assert(keys =~= head + rest);
        Seq::filter_distributes_over_add(head, rest, other);
        assert(head.filter(other) =~= if other(keys[0]) {
            head
        } else {
            Seq::empty()
        }) by {
            reveal(Seq::filter);
            assert(head.drop_last() =~= Seq::<KeyModel>::empty());
            assert(head.drop_last().filter(other) =~= Seq::<KeyModel>::empty());
        }
        assert(kept_keys(keys, label) =~= keys.filter(other));
    }
}

/// Decrypting every password fails exactly when one does not open, and then as the first such one does.
pub proof fn only_a_password_that_does_not_open_stops_a_removal(
    key: Seq<u8>,
    secrets: Seq<SecretModel>,
)
    ensures
        secret_fault(key, secrets) is None <==> (forall|i: int|
            0 <= i < secrets.len() ==> plain_of(key, #[trigger] secrets[i]) is Ok),
        secret_fault(key, secrets) matches Some(fault) ==> exists|i: int|
            0 <= i < secrets.len() && plain_of(key, #[trigger] secrets[i]) == Err::<
                Seq<u8>,
                Fault,
            >(fault) && (forall|j: int| 0 <= j < i ==> plain_of(key, #[trigger] secrets[j]) is Ok),
    decreases secrets.len(),
{
    if secrets.len() > 0 {
        let rest = secrets.skip(1);
        only_a_password_that_does_not_open_stops_a_removal(key, rest);
        assert(forall|i: int| 0 < i < secrets.len() ==> #[trigger] secrets[i] == rest[i - 1]);
        assert(forall|i: int| 0 <= i < rest.len() ==> #[trigger] rest[i] == secrets[i + 1]);
        if plain_of(key, secrets[0]) is Err {
            assert(secret_fault(key, secrets) == Some(plain_of(key, secrets[0])->Err_0));
        } else if secret_fault(key, secrets) is Some {
            let fault = secret_fault(key, secrets)->0;
            let i = choose|i: int|
                0 <= i < rest.len() && plain_of(key, #[trigger] rest[i]) == Err::<Seq<u8>, Fault>(
                    fault,
                ) && (forall|j: int| 0 <= j < i ==> plain_of(key, #[trigger] rest[j]) is Ok);
            assert(plain_of(key, secrets[i + 1]) == Err::<Seq<u8>, Fault>(fault));
            assert forall|j: int| 0 <= j < i + 1 implies plain_of(
                key,
                #[trigger] secrets[j],
            ) is Ok by {
                if j > 0 {
                    assert(secrets[j] == rest[j - 1]);
                }
            }
        }
    }
}

/// The keys that stay are all right exactly when for each of them an unlock is given that unwraps the
/// data key. Otherwise the first that is not decides: its unlock is missing, or does not unwrap.
pub proof fn every_key_that_stays_must_be_present(
    vault: VaultModel,
    kept: Seq<KeyModel>,
    given: Seq<UnlockModel>,
)
    ensures
        kept_fault(vault, kept, given) is None <==> (forall|i: int|
            0 <= i < kept.len() ==> {
                let unlock = unlock_for(given, (#[trigger] kept[i]).cred_id);
                unlock is Some && vault.data_key(unlock->0) is Ok
            }),
        forall|i: int|
            #![trigger kept[i]]
            0 <= i < kept.len() && unlock_for(given, kept[i].cred_id) is None && (forall|j: int|
                0 <= j < i ==> {
                    let unlock = unlock_for(given, (#[trigger] kept[j]).cred_id);
                    unlock is Some && vault.data_key(unlock->0) is Ok
                }) ==> kept_fault(vault, kept, given) == Some(
                Fault::KeyMissing { label: kept[i].label },
            ),
    decreases kept.len(),
{
    if kept.len() > 0 {
        let rest = kept.skip(1);
        every_key_that_stays_must_be_present(vault, rest, given);
        assert(forall|i: int| 0 < i < kept.len() ==> #[trigger] kept[i] == rest[i - 1]);
        assert(forall|i: int| 0 <= i < rest.len() ==> #[trigger] rest[i] == kept[i + 1]);
        assert forall|i: int|
            #![trigger kept[i]]
            0 <= i < kept.len() && unlock_for(given, kept[i].cred_id) is None && (forall|j: int|
                0 <= j < i ==> {
                    let unlock = unlock_for(given, (#[trigger] kept[j]).cred_id);
                    unlock is Some && vault.data_key(unlock->0) is Ok
                }) implies kept_fault(vault, kept, given) == Some(
            Fault::KeyMissing { label: kept[i].label },
        ) by {
            if i > 0 {
                assert(kept[0] == kept[0]);
                assert(rest[i - 1] == kept[i]);
                assert forall|j: int| 0 <= j < i - 1 implies {
                    let unlock = unlock_for(given, (#[trigger] rest[j]).cred_id);
                    unlock is Some && vault.data_key(unlock->0) is Ok
                } by {
                    assert(rest[j] == kept[j + 1]);
                }
            }
        }
    }
}

/// Every draw before the first that fails is good.
pub proof fn draws_are_good_until_one_fails(draws: Seq<Result<Seq<u8>, Fault>>)
    ensures
        good_draws(draws) <= draws.len(),
        forall|i: int| 0 <= i < good_draws(draws) ==> (#[trigger] draws[i]) is Ok,
        good_draws(draws) < draws.len() ==> draws[good_draws(draws) as int] is Err,
    decreases draws.len(),
{
    if draws.len() > 0 && draws[0] is Ok {
        let rest = draws.skip(1);
        draws_are_good_until_one_fails(rest);
        assert forall|i: int| 0 <= i < good_draws(draws) implies (#[trigger] draws[i]) is Ok by {
            if i > 0 {
                assert(draws[i] == rest[i - 1]);
            }
        }
    }
}

/// A key is removed exactly when its label is enrolled, another key is enrolled, each key that stays is
/// given an unlock that unwraps its data key, every password opens under the data key of the first key
/// that stays, and the draws succeed. How long a password is makes no difference.
pub proof fn a_key_is_removed_whenever_it_can_be(
    vault: VaultModel,
    label: Seq<char>,
    given: Seq<UnlockModel>,
    from: Seq<u8>,
    key: Result<Seq<u8>, Fault>,
    nonces: Seq<Result<Seq<u8>, Fault>>,
)
    requires
        ({
            let kept = vault.keys.filter(|k: KeyModel| k.label != label);
            &&& kept.len() > 0
            &&& unlock_for(given, kept[0].cred_id) matches Some(unlock) ==> (vault.data_key(
                unlock,
            ) matches Ok(k) ==> k == from)
            &&& nonces.len() >= vault.secrets.len() + kept.len()
        }),
    ensures
        ({
            let kept = vault.keys.filter(|k: KeyModel| k.label != label);
            let (end, after) = removal(vault, label, given, key, nonces);
            let enrolled = exists|i: int|
                0 <= i < vault.keys.len() && (#[trigger] vault.keys[i]).label == label;
            let present = forall|i: int|
                0 <= i < kept.len() ==> {
                    let unlock = unlock_for(given, (#[trigger] kept[i]).cred_id);
                    unlock is Some && vault.data_key(unlock->0) is Ok
                };
            let opens = forall|i: int|
                0 <= i < vault.secrets.len() ==> plain_of(from, #[trigger] vault.secrets[i]) is Ok;
            let drawn = forall|i: int|
                0 <= i < vault.secrets.len() + kept.len() ==> (#[trigger] nonces[i]) is Ok;
            &&& end is Ok <==> enrolled && vault.keys.len() > 1 && present && opens && key is Ok
                && drawn
            &&& !enrolled ==> end == Err::<(), Fault>(Fault::NoSuchLabel { label })
            &&& enrolled && vault.keys.len() <= 1 ==> end == Err::<(), Fault>(Fault::LastKey)
            &&& !(enrolled && vault.keys.len() > 1 && present && opens && key is Ok) ==> after
                == vault
            &&& end is Ok ==> {
                let to = key->Ok_0;
                &&& after.version == vault.version
                &&& after.salt == vault.salt
                &&& after.secrets.len() == vault.secrets.len()
                &&& forall|i: int|
                    0 <= i < vault.secrets.len() ==> (#[trigger] after.secrets[i]) == (
                    SecretModel {
                        database: vault.secrets[i].database,
                        nonce: nonces[i]->Ok_0,
                        ciphertext: sealed_bytes(
                            to,
                            nonces[i]->Ok_0,
                            plain_of(from, vault.secrets[i])->Ok_0,
                            aad_of(vault.secrets[i].database),
                        ),
                    })
                &&& after.keys.len() == kept.len()
                &&& forall|i: int|
                    0 <= i < kept.len() ==> (#[trigger] after.keys[i]) == (KeyModel {
                        label: kept[i].label,
                        cred_id: unlock_for(given, kept[i].cred_id)->0.cred_id,
                        nonce: nonces[vault.secrets.len() + i]->Ok_0,
                        wrapped_key: sealed_bytes(
                            unlock_for(given, kept[i].cred_id)->0.output,
                            nonces[vault.secrets.len() + i]->Ok_0,
                            to,
                            unlock_for(given, kept[i].cred_id)->0.cred_id,
                        ),
                    })
            }
        }),
{
    other_labels_are_kept(vault.keys, label);
    let kept = kept_keys(vault.keys, label);
    every_key_that_stays_must_be_present(vault, kept, given);
    only_a_password_that_does_not_open_stops_a_removal(from, vault.secrets);
    draws_are_good_until_one_fails(nonces);
    assert(kept[0] == kept[0]);
}

/// A vault that was read is refused exactly for one of these, in this order: a salt of another length
/// than 32, no key, no password, a nonce of another length than 24, a database name twice.
pub proof fn a_vault_is_refused_only_for_its_faults(vault: VaultModel)
    ensures
        ({
            let nonces = (forall|i: int|
                0 <= i < vault.keys.len() ==> (#[trigger] vault.keys[i]).nonce.len() == 24) && (
            forall|i: int|
                0 <= i < vault.secrets.len() ==> (#[trigger] vault.secrets[i]).nonce.len() == 24);
            let twice = exists|i: int, j: int|
                0 <= i < j < vault.secrets.len() && (#[trigger] vault.secrets[i]).database == (
                #[trigger] vault.secrets[j]).database;
            let whole = vault.salt.len() == 32 && vault.keys.len() > 0 && vault.secrets.len() > 0;
            &&& invalid(vault) is None <==> whole && nonces && !twice
            &&& vault.wf() <==> whole && nonces && !twice
            &&& vault.salt.len() != 32 ==> invalid(vault) == Some(Fault::SaltLength)
            &&& vault.salt.len() == 32 && vault.keys.len() == 0 ==> invalid(vault) == Some(
                Fault::NoKeys,
            )
            &&& vault.salt.len() == 32 && vault.keys.len() > 0 && vault.secrets.len() == 0
                ==> invalid(vault) == Some(Fault::NoSecrets)
            &&& whole && !nonces ==> invalid(vault) == Some(Fault::NonceLength)
            &&& whole && nonces && twice ==> invalid(vault) == Some(Fault::DuplicateDatabase)
        }),
{
    if !super::names_differ(vault.secrets) {
        let (i, j) = choose|i: int, j: int|
            0 <= i < j < vault.secrets.len() && !((#[trigger] vault.secrets[i]).database != (
            #[trigger] vault.secrets[j]).database);
        assert(vault.secrets[i].database == vault.secrets[j].database);
    }
}

/// A check sorts the database names, in order, by whether their passwords open.
pub proof fn a_check_sorts_every_name(secrets: Seq<SecretModel>, key: Seq<u8>)
    ensures
        names_that(secrets, key, true) == secrets.filter(
            |s: SecretModel| plain_of(key, s) is Ok,
        ).map_values(|s: SecretModel| s.database),
        names_that(secrets, key, false) == secrets.filter(
            |s: SecretModel| plain_of(key, s) is Err,
        ).map_values(|s: SecretModel| s.database),
    decreases secrets.len(),
{
    reveal(Seq::filter);
    let name = |s: SecretModel| s.database;
    let good = |s: SecretModel| plain_of(key, s) is Ok;
    let bad = |s: SecretModel| plain_of(key, s) is Err;
    if secrets.len() > 0 {
        let front = secrets.drop_last();
        a_check_sorts_every_name(front, key);
        if good(secrets.last()) {
            assert(front.filter(good).push(secrets.last()).map_values(name) =~= front.filter(
                good,
            ).map_values(name).push(secrets.last().database));
        } else {
            assert(front.filter(bad).push(secrets.last()).map_values(name) =~= front.filter(
                bad,
            ).map_values(name).push(secrets.last().database));
        }
    }
    assert(names_that(secrets, key, true) =~= secrets.filter(good).map_values(name));
    assert(names_that(secrets, key, false) =~= secrets.filter(bad).map_values(name));
}

/// An unlock is given for the key that unwraps the data key.
pub open spec fn is_present(vault: VaultModel, given: Seq<UnlockModel>, key: KeyModel) -> bool {
    unlock_for(given, key.cred_id) matches Some(unlock) && vault.data_key(unlock) is Ok
}

/// A removal that fails says why, and leaves the vault as it was: the first key that stays and is absent
/// or does not unwrap, else the first password that does not open, else the failed draw.
pub proof fn a_removal_that_fails_says_why(
    vault: VaultModel,
    label: Seq<char>,
    given: Seq<UnlockModel>,
    from: Seq<u8>,
    key: Result<Seq<u8>, Fault>,
    nonces: Seq<Result<Seq<u8>, Fault>>,
    i: int,
)
    requires
        vault.keys.len() > 1,
        exists|k: int| 0 <= k < vault.keys.len() && (#[trigger] vault.keys[k]).label == label,
        ({
            let kept = vault.keys.filter(|k: KeyModel| k.label != label);
            &&& kept.len() > 0
            &&& unlock_for(given, kept[0].cred_id) matches Some(unlock) ==> (vault.data_key(
                unlock,
            ) matches Ok(k) ==> k == from)
        }),
    ensures
        ({
            let kept = vault.keys.filter(|k: KeyModel| k.label != label);
            let (end, after) = removal(vault, label, given, key, nonces);
            let present = forall|j: int|
                0 <= j < kept.len() ==> is_present(vault, given, #[trigger] kept[j]);
            let earlier = forall|j: int|
                0 <= j < i ==> is_present(vault, given, #[trigger] kept[j]);
            let opens = forall|j: int|
                0 <= j < vault.secrets.len() ==> plain_of(from, #[trigger] vault.secrets[j]) is Ok;
            let opened = forall|j: int|
                0 <= j < i ==> plain_of(from, #[trigger] vault.secrets[j]) is Ok;
            &&& 0 <= i < kept.len() && earlier && unlock_for(given, kept[i].cred_id) is None ==> end
                == Err::<(), Fault>(Fault::KeyMissing { label: kept[i].label }) && after == vault
            &&& 0 <= i < kept.len() && earlier && unlock_for(given, kept[i].cred_id) is Some && (
            vault.data_key(unlock_for(given, kept[i].cred_id)->0) is Err) ==> end == Err::<
                (),
                Fault,
            >(vault.data_key(unlock_for(given, kept[i].cred_id)->0)->Err_0) && after == vault
            &&& present && 0 <= i < vault.secrets.len() && opened && plain_of(
                from,
                vault.secrets[i],
            ) is Err ==> end == Err::<(), Fault>(
                Fault::SecretRejected { database: vault.secrets[i].database },
            ) && after == vault
            &&& present && opens && key is Err ==> end == Err::<(), Fault>(key->Err_0) && after
                == vault
        }),
{
    other_labels_are_kept(vault.keys, label);
    let kept = kept_keys(vault.keys, label);
    assert(has_label(vault.keys, label));
    if 0 <= i < kept.len() && (forall|j: int|
        0 <= j < i ==> is_present(vault, given, #[trigger] kept[j])) {
        first_misfit_decides(vault, kept, given, i);
    }
    if forall|j: int| 0 <= j < kept.len() ==> is_present(vault, given, #[trigger] kept[j]) {
        every_key_that_stays_must_be_present(vault, kept, given);
        assert(kept_fault(vault, kept, given) is None);
        assert(is_present(vault, given, kept[0]));
        only_a_password_that_does_not_open_stops_a_removal(from, vault.secrets);
    }
}

proof fn first_misfit_decides(
    vault: VaultModel,
    kept: Seq<KeyModel>,
    given: Seq<UnlockModel>,
    i: int,
)
    requires
        0 <= i < kept.len(),
        forall|j: int| 0 <= j < i ==> is_present(vault, given, #[trigger] kept[j]),
    ensures
        unlock_for(given, kept[i].cred_id) is None ==> kept_fault(vault, kept, given) == Some(
            Fault::KeyMissing { label: kept[i].label },
        ),
        unlock_for(given, kept[i].cred_id) is Some && vault.data_key(
            unlock_for(given, kept[i].cred_id)->0,
        ) is Err ==> kept_fault(vault, kept, given) == Some(
            vault.data_key(unlock_for(given, kept[i].cred_id)->0)->Err_0,
        ),
    decreases kept.len(),
{
    if i > 0 {
        let rest = kept.skip(1);
        assert(is_present(vault, given, kept[0]));
        assert(rest[i - 1] == kept[i]);
        assert forall|j: int| 0 <= j < i - 1 implies is_present(
            vault,
            given,
            #[trigger] rest[j],
        ) by {
            assert(rest[j] == kept[j + 1]);
        }
        first_misfit_decides(vault, rest, given, i - 1);
    }
}

/// A vault is seen entry by entry, in order, by what the entries hold.
pub proof fn a_vault_is_seen_as_it_is(vault: Vault, i: int)
    ensures
        vault@.version == vault.version && vault@.salt == vault.salt@,
        vault@.keys.len() == vault.keys@.len() && vault@.secrets.len() == vault.secrets@.len(),
        0 <= i < vault.keys@.len() ==> {
            let (seen, key) = (vault@.keys[i], vault.keys@[i]);
            seen.label == key.label@ && seen.cred_id == key.cred_id@ && seen.nonce == key.nonce@
                && seen.wrapped_key == key.wrapped_key@
        },
        0 <= i < vault.secrets@.len() ==> {
            let (seen, secret) = (vault@.secrets[i], vault.secrets@[i]);
            seen.database == secret.database@ && seen.nonce == secret.nonce@ && seen.ciphertext
                == secret.ciphertext@
        },
{
}

/// Unlocks are seen one by one, in order, each by its credential and its output.
pub proof fn unlocks_are_seen_as_they_are(given: Seq<Unlock>, i: int)
    ensures
        unlocks(given).len() == given.len(),
        0 <= i < given.len() ==> unlocks(given)[i].cred_id == given[i].cred_id@ && unlocks(
            given,
        )[i].output == given[i].output@,
{
}

} // verus!
