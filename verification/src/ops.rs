//! The decisions around vault operations that the terminal commands and the menu panels share.

use vstd::prelude::*;
use vstd::string::*;

use crate::config::{Config, ConfigError, ConfigFault};
use crate::error::{Fault, VaultError};
use crate::text::{
    a_part_stands_between, bytes_to_vec, decimal, decimal_text, every_text_is_joined, has_part, join,
    joined, one_more_text_is_joined, text_eq, texts,
};
use crate::vault::rules::other_labels_are_kept;
use crate::vault::{has_label, kept_keys, Check, KeyModel, Vault, ANY};

verus! {

/// A database name in words.
pub open spec fn described(database: Seq<char>) -> Seq<char> {
    if database == ANY@ {
        "any other database (*)"@
    } else {
        database
    }
}

/// Names the catch-all entry in words, so messages never show a bare `*`.
pub fn describe(database: &str) -> (words: &str)
    ensures
        words@ == described(database@),
{
    if text_eq(database, ANY) {
        "any other database (*)"
    } else {
        database
    }
}

/// Database names in words, with commas between them.
pub open spec fn listed(names: Seq<Seq<char>>) -> Seq<char> {
    joined(names.map_values(|name: Seq<char>| described(name)), ", "@)
}

/// Database names in words, with commas between them.
pub fn list(names: &[String]) -> (words: String)
    ensures
        words@ == listed(texts(names@)),
{
    let ghost all = texts(names@).map_values(|name: Seq<char>| described(name));
    let mut parts: Vec<String> = Vec::new();
    for i in 0..names.len()
        invariant
            all == texts(names@).map_values(|name: Seq<char>| described(name)),
            texts(parts@) =~= all.take(i as int),
    {
        let part = describe(names[i].as_str()).to_owned();
        let ghost had = texts(parts@);
        parts.push(part);
        assert(texts(parts@) =~= had.push(part@));
    }
    assert(all.take(all.len() as int) =~= all);
    join(&parts, ", ")
}

/// What a check found, in words.
pub open spec fn reported(
    label: Seq<char>,
    opened: Seq<Seq<char>>,
    failed: Seq<Seq<char>>,
) -> Seq<char> {
    "This key is enrolled as \""@ + label + "\". "@ + (if failed.len() == 0 {
        if opened.len() == 0 {
            "The vault holds no passwords yet."@
        } else if opened.len() == 1 {
            "It opens the stored password for "@ + listed(opened) + "."@
        } else {
            "It opens all "@ + decimal_text(opened.len()) + " stored passwords: "@ + listed(opened)
                + "."@
        }
    } else {
        let start = if opened.len() == 0 {
            "It opens no stored password, and "@
        } else {
            "It opens "@ + listed(opened) + ", but "@
        };
        if failed.len() == 1 {
            start + "the password for "@ + listed(failed) + " fails to decrypt. Store it again."@
        } else {
            start + "the passwords for "@ + listed(failed) + " fail to decrypt. Store them again."@
        }
    })
}

/// Says in words what a check found.
pub fn report(check: &Check) -> (words: String)
    ensures
        words@ == reported(check.label@, texts(check.opened@), texts(check.failed@)),
{
    let mut s = "This key is enrolled as \"".to_owned();
    s.append(check.label.as_str());
    s.append("\". ");
    let ghost head = s@;
    let mut t = String::new();
    if check.failed.len() == 0 {
        if check.opened.len() == 0 {
            t.append("The vault holds no passwords yet.");
        } else if check.opened.len() == 1 {
            t.append("It opens the stored password for ");
            t.append(list(&check.opened).as_str());
            t.append(".");
        } else {
            t.append("It opens all ");
            t.append(decimal(check.opened.len() as u64).as_str());
            t.append(" stored passwords: ");
            t.append(list(&check.opened).as_str());
            t.append(".");
        }
    } else {
        if check.opened.len() == 0 {
            t.append("It opens no stored password, and ");
        } else {
            t.append("It opens ");
            t.append(list(&check.opened).as_str());
            t.append(", but ");
        }
        if check.failed.len() == 1 {
            t.append("the password for ");
            t.append(list(&check.failed).as_str());
            t.append(" fails to decrypt. Store it again.");
        } else {
            t.append("the passwords for ");
            t.append(list(&check.failed).as_str());
            t.append(" fail to decrypt. Store them again.");
        }
    }
    s.append(t.as_str());
    assert(s@ =~= reported(check.label@, texts(check.opened@), texts(check.failed@)));
    s
}

/// Fails before any touch when creating a vault could not succeed.
pub fn check_new(
    config: &Config,
    folder_exists: bool,
    parent_exists: bool,
    vault_exists: bool,
) -> (r: Result<(), ConfigError>)
    ensures
        r is Ok <==> (folder_exists || parent_exists) && !vault_exists,
        r matches Err(e) ==> e@ == (if folder_exists || parent_exists {
            ConfigFault::VaultExists { vault: config@.vault }
        } else {
            ConfigFault::NoFolder { folder: config@.folder }
        }),
{
    match config.check_folder(folder_exists, parent_exists) {
        Ok(()) => {},
        Err(error) => return Err(error),
    }
    if vault_exists {
        return Err(ConfigError::VaultExists { vault: config.vault.clone() });
    }
    Ok(())
}

/// Fails unless the vault file is there to be loaded.
pub fn check_exists(config: &Config, vault_exists: bool) -> (r: Result<(), ConfigError>)
    ensures
        r is Ok <==> vault_exists,
        r matches Err(e) ==> e@ == (ConfigFault::NoVault { vault: config@.vault }),
{
    if vault_exists {
        Ok(())
    } else {
        Err(ConfigError::NoVault { vault: config.vault.clone() })
    }
}

/// Fails before any touch when a label is taken.
pub fn check_label(vault: &Vault, label: &str) -> (r: Result<(), VaultError>)
    ensures
        r is Ok <==> !has_label(vault@.keys, label@),
        r matches Err(e) ==> e@ == (Fault::LabelExists { label: label@ }),
{
    if vault.has_label(label) {
        Err(VaultError::LabelExists { label: label.to_owned() })
    } else {
        Ok(())
    }
}

/// A key's label and credential as plain sequences.
pub open spec fn touch_models(left: Seq<(String, Vec<u8>)>) -> Seq<(Seq<char>, Seq<u8>)> {
    left.map_values(|key: (String, Vec<u8>)| (key.0@, key.1@))
}

/// The labels and credentials of keys.
pub open spec fn touches(keys: Seq<KeyModel>) -> Seq<(Seq<char>, Seq<u8>)> {
    keys.map_values(|key: KeyModel| (key.label, key.cred_id))
}

/// Labels and credential IDs of every key except `label`, which must be touched to remove it.
pub fn keys_to_touch(vault: &Vault, label: &str) -> (r: Result<Vec<(String, Vec<u8>)>, VaultError>)
    ensures
        r is Ok <==> has_label(vault@.keys, label@) && vault@.keys.len() > 1,
        r matches Ok(left) ==> touch_models(left@) == touches(kept_keys(vault@.keys, label@)),
        r matches Err(e) ==> e@ == (if has_label(vault@.keys, label@) {
            Fault::LastKey
        } else {
            Fault::NoSuchLabel { label: label@ }
        }),
{
    if !vault.has_label(label) {
        return Err(VaultError::NoSuchLabel { label: label.to_owned() });
    }
    if vault.keys.len() <= 1 {
        return Err(VaultError::LastKey);
    }
    let ghost all = vault@.keys;
    let mut left: Vec<(String, Vec<u8>)> = Vec::new();
    assert(all.skip(0) =~= all);
    assert(touch_models(left@) + touches(kept_keys(all, label@)) =~= touches(
        kept_keys(all, label@),
    ));
    for i in 0..vault.keys.len()
        invariant
            all == vault@.keys,
            touch_models(left@) + touches(kept_keys(all.skip(i as int), label@)) == touches(
                kept_keys(all, label@),
            ),
    {
        let entry = &vault.keys[i];
        let ghost tail = all.skip(i as int);
        assert(tail[0] == entry@);
        assert(tail.skip(1) =~= all.skip(i + 1));
        if !text_eq(entry.label.as_str(), label) {
            let ghost had = touch_models(left@);
            let cred_id = bytes_to_vec(entry.cred_id.as_slice());
            left.push((entry.label.clone(), cred_id));
            assert(touch_models(left@) =~= had.push((entry@.label, entry@.cred_id)));
            assert(had.push((entry@.label, entry@.cred_id)) + touches(
                kept_keys(tail.skip(1), label@),
            ) =~= had + touches(kept_keys(tail, label@)));
        }
    }
    assert(touch_models(left@) + touches(kept_keys(all.skip(all.len() as int), label@))
        =~= touch_models(left@));
    Ok(left)
}

/// A message names a database as it is, and the catch-all entry in words. In a list of names every one
/// of them stands.
pub proof fn every_name_is_listed(names: Seq<Seq<char>>, i: int)
    requires
        0 <= i < names.len(),
    ensures
        names[i] != "*"@ ==> described(names[i]) == names[i] && has_part(listed(names), names[i]),
        names[i] == "*"@ ==> described(names[i]) == "any other database (*)"@ && has_part(
            listed(names),
            "any other database (*)"@,
        ),
        i > 0 ==> has_part(listed(names), ", "@ + described(names[i])),
        names.len() == 1 ==> listed(names) == described(names[0]),
{
    let words = names.map_values(|name: Seq<char>| described(name));
    every_text_is_joined(words, ", "@, i);
    if names.len() == 1 {
        one_more_text_is_joined(Seq::empty(), words[0], ", "@);
        assert(words =~= seq![words[0]]);
    }
}

/// A report names the key, every password that opens, and every one that does not. It says so exactly
/// where one fails.
pub proof fn a_report_tells_what_a_check_found(
    label: Seq<char>,
    opened: Seq<Seq<char>>,
    failed: Seq<Seq<char>>,
)
    ensures
        ({
            let head = "This key is enrolled as \""@ + label + "\". "@;
            let text = reported(label, opened, failed);
            &&& has_part(text, label)
            &&& opened.len() > 0 ==> has_part(text, listed(opened))
            &&& failed.len() > 0 ==> has_part(text, listed(failed))
            &&& opened.len() == 0 && failed.len() == 0 ==> text == head
                + "The vault holds no passwords yet."@
            &&& opened.len() == 1 && failed.len() == 0 ==> text == head
                + "It opens the stored password for "@ + listed(opened) + "."@
            &&& opened.len() > 1 && failed.len() == 0 ==> text == head + "It opens all "@
                + decimal_text(opened.len()) + " stored passwords: "@ + listed(opened) + "."@
            &&& opened.len() == 0 && failed.len() == 1 ==> text == head
                + "It opens no stored password, and "@ + "the password for "@ + listed(failed)
                + " fails to decrypt. Store it again."@
            &&& opened.len() > 0 && failed.len() == 1 ==> text == head + "It opens "@ + listed(
                opened,
            ) + ", but "@ + "the password for "@ + listed(failed)
                + " fails to decrypt. Store it again."@
            &&& opened.len() == 0 && failed.len() > 1 ==> text == head
                + "It opens no stored password, and "@ + "the passwords for "@ + listed(failed)
                + " fail to decrypt. Store them again."@
            &&& opened.len() > 0 && failed.len() > 1 ==> text == head + "It opens "@ + listed(
                opened,
            ) + ", but "@ + "the passwords for "@ + listed(failed)
                + " fail to decrypt. Store them again."@
        }),
{
    let start = "This key is enrolled as \""@;
    let head = start + label + "\". "@;
    let text = reported(label, opened, failed);
    let good = listed(opened);
    let bad = listed(failed);
    let tail = text.skip(head.len() as int);
    assert(text =~= start + label + ("\". "@ + tail));
    a_part_stands_between(start, label, "\". "@ + tail);
    let ends = if failed.len() == 1 {
        " fails to decrypt. Store it again."@
    } else {
        " fail to decrypt. Store them again."@
    };
    let before = if failed.len() == 1 {
        "the password for "@
    } else {
        "the passwords for "@
    };
    if failed.len() > 0 {
        let lead = if opened.len() == 0 {
            head + "It opens no stored password, and "@
        } else {
            head + "It opens "@ + good + ", but "@
        };
        assert(text =~= (lead + before) + bad + ends);
        a_part_stands_between(lead + before, bad, ends);
        if opened.len() > 0 {
            assert(text =~= (head + "It opens "@) + good + (", but "@ + before + bad + ends));
            a_part_stands_between(head + "It opens "@, good, ", but "@ + before + bad + ends);
        }
    } else if opened.len() == 1 {
        assert(text =~= (head + "It opens the stored password for "@) + good + "."@);
        a_part_stands_between(head + "It opens the stored password for "@, good, "."@);
    } else if opened.len() > 1 {
        let lead = head + "It opens all "@ + decimal_text(opened.len()) + " stored passwords: "@;
        assert(text =~= lead + good + "."@);
        a_part_stands_between(lead, good, "."@);
    }
}

/// Every key with another label must be touched, by its own label and credential, in vault order.
pub proof fn every_key_that_stays_is_touched(keys: Seq<KeyModel>, label: Seq<char>)
    ensures
        touches(kept_keys(keys, label)) == keys.filter(|k: KeyModel| k.label != label).map_values(
            |k: KeyModel| (k.label, k.cred_id),
        ),
{
    other_labels_are_kept(keys, label);
    assert(touches(kept_keys(keys, label)) =~= kept_keys(keys, label).map_values(
        |k: KeyModel| (k.label, k.cred_id),
    ));
}

} // verus!
