//! What each event of the app leads to, said of the effects and of what is open then.

use vstd::prelude::*;
use vstd::utf8::*;

use super::flow::{
    asks_for_pin, sheet_for, stage_after, value_count, AskingM, HealthM, JobM, Stage, TickAction,
    Turn, UiM,
};
use super::forms::{
    about_panel, autofill_options, message_panel, pin_panel, setup_panel, sheet_fields,
    sheet_message,
};
use super::menu::{
    choice_of, copy_title, database_names, file_lines, key_labels, menu_model, report_text,
    starting_values, MenuAction, MenuLineM,
};
use super::{
    effects, AfterKeyM, Effect, EffectM, Facts, FactsM, NextM, NoticeM, OutcomeM, SettingsM, SheetM,
    StepM, TargetM, TouchM, Work, WorkM,
};
use crate::config::{rendered, toml_string, Autofill, ConfigFault, ConfigModel};
use crate::fido::FidoFault;
use crate::panels::{secret_field, Action, Key, KindModel};
use crate::path::{
    a_folder_comes_off, a_leading_tilde_comes_off, a_relative_path_is_appended, an_empty_path_stays,
    another_start_stays, dark_ends,
};
use crate::text::{
    a_part_stands_between, decimal_reads_back, decimal_text, every_text_is_joined, has_part, joined,
    parsed_u64, stands_at, texts, trimmed,
};
use crate::vault::{unlocks, KeyModel, SecretModel, UnlockModel, VaultModel};

verus! {

/// The effects so far, with the message panel closed if one is open.
pub open spec fn quiet(turn: Turn) -> Seq<EffectM> {
    if turn.ui.message is Some {
        turn.out.push(EffectM::CloseMessage)
    } else {
        turn.out
    }
}

/// A prompt that gains focus is answered unless a PIN panel is open, an unlock waits for a touch, or the
/// last attempt ended a moment ago. In a fresh app it is answered at every time. A prompt that keeps
/// its focus is not.
pub proof fn a_new_prompt_is_answered(ui: UiM, fresh: UiM, now: u64)
    requires
        fresh.asking is None,
        fresh.pending is None,
        fresh.suppress_until is None,
    ensures
        ui.asking is None && ui.pending is None && (match ui.suppress_until {
            Some(until) => until <= now,
            None => true,
        }) ==> ui.prompts(true, now),
        fresh.prompts(true, now),
        !ui.prompts(false, now),
        ui.asking is Some || ui.pending is Some ==> !ui.prompts(true, now),
        ui.suppress_until matches Some(until) ==> (now < until ==> !ui.prompts(true, now)),
{
}

/// After an attempt ended, prompts are ignored for three seconds and answered from then on.
pub proof fn the_suppression_lasts_three_seconds(
    turn: Turn,
    target: TargetM,
    now: u64,
    later: u64,
)
    requires
        now <= 0x7fff_ffff_ffff_ffff,
        turn.ui.asking is None,
        turn.ui.pending is None,
    ensures
        turn.done(target, now).ui.prompts(true, later) <==> later >= now + 3000,
        turn.done(target, now).out == (if target is Fill {
            turn.out.push(EffectM::Activate)
        } else {
            turn.out
        }),
        turn.done(target, now).ui == (UiM {
            suppress_until: Some((now + 3000) as u64),
            ..turn.ui
        }),
{
}

/// An attempt starts with the choice of a key whenever no flow is under way, the config and the vault
/// load, and a password answers for its database: the one that KeePassXC shows for autofill, and the
/// chosen one for a copy, whatever KeePassXC shows. Without a password it is refused by that name.
pub proof fn an_attempt_starts_for_its_own_database(
    turn: Turn,
    target: TargetM,
    facts: FactsM,
    database: Option<Seq<char>>,
    vault: VaultModel,
)
    requires
        !turn.ui.busy(),
        facts.config is Ok,
        facts.vault_exists,
        facts.vault == Ok::<VaultModel, Seq<char>>(vault),
        facts.now <= 0x7fff_ffff_ffff_ffff,
        target == TargetM::Fill ==> database == facts.database,
        target matches TargetM::Copy(name) ==> database == Some(name),
    ensures
        ({
            let after = turn.start(target, facts);
            if vault.secret_for(database) is Some {
                &&& after.out == quiet(turn).push(EffectM::Run(WorkM::Devices))
                &&& after.ui == (UiM {
                    message: None,
                    key: false,
                    job: Some(
                        JobM { next: NextM::Devices(AfterKeyM::Unlock(target)), touch: false },
                    ),
                    ..turn.ui
                })
            } else {
                let told = quiet(turn).push(
                    EffectM::ShowMessage { notice: NoticeM::NoPassword { database }, retry: false },
                );
                &&& after.out == (if target is Fill {
                    told.push(EffectM::Activate)
                } else {
                    told
                })
                &&& after.ui == (UiM {
                    message: Some(None),
                    suppress_until: Some((facts.now + 3000) as u64),
                    ..turn.ui
                })
            }
        }),
{
}

/// While a flow is under way, or the config or the vault does not load, no attempt starts.
pub proof fn no_attempt_starts_without_a_vault(turn: Turn, target: TargetM, facts: FactsM)
    requires
        turn.ui.busy() || facts.config is Err || !facts.vault_exists || facts.vault is Err,
    ensures
        turn.start(target, facts) == turn,
{
}

/// Once the key is known, one key at once and several by a touch, the attempt asks for the PIN to open
/// its own database: the one that KeePassXC shows for autofill, and the chosen one for a copy.
pub proof fn a_known_key_leads_to_the_pin(
    turn: Turn,
    target: TargetM,
    facts: FactsM,
    database: Option<Seq<char>>,
)
    requires
        !turn.ui.busy(),
        target == TargetM::Fill ==> database == facts.database,
        target matches TargetM::Copy(name) ==> database == Some(name),
    ensures
        ({
            let after = AfterKeyM::Unlock(target);
            let one = turn.after_job(
                NextM::Devices(after),
                Ok(OutcomeM::Devices(1)),
                facts,
            );
            let touched = turn.after_job(NextM::Chosen(after), Ok(OutcomeM::Key), facts);
            let asked = Turn {
                ui: UiM {
                    message: None,
                    key: true,
                    asking: Some(AskingM { target, database }),
                    ..turn.ui
                },
                out: quiet(turn).push(EffectM::ShowPin { note: None, database }),
            };
            one == asked && touched == asked
        }),
{
}

/// The PIN runs the unlock of the database that was asked for, if the files load and the key is known.
/// Otherwise the attempt ends.
pub proof fn a_pin_opens_the_database_that_was_asked_for(
    turn: Turn,
    asking: AskingM,
    pin: Seq<char>,
    facts: FactsM,
)
    requires
        facts.now <= 0x7fff_ffff_ffff_ffff,
    ensures
        ({
            let after = turn.take_pin(asking, pin, facts);
            let loads = facts.config is Ok && facts.vault_exists && facts.vault is Ok;
            &&& loads && pin.len() > 0 && turn.ui.key ==> after.out == turn.out.push(
                EffectM::Run(WorkM::Unlock { database: asking.database, pin }),
            ).push(EffectM::ShowTouch(TouchM::Now)) && after.ui == (UiM {
                pending: Some(asking.target),
                ..turn.ui
            })
            &&& !(loads && pin.len() > 0 && turn.ui.key) ==> after.ui == (UiM {
                suppress_until: Some((facts.now + 3000) as u64),
                ..turn.ui
            }) && after.out == (if asking.target is Fill {
                turn.out.push(EffectM::Activate)
            } else {
                turn.out
            })
            &&& turn.close_asking() == (Turn {
                ui: UiM { asking: None, ..turn.ui },
                out: turn.out.push(EffectM::CloseAsking),
            })
        }),
{
}

/// A copy of a chosen database's password, from the menu to the unlock, opens that very database: with
/// one key plugged in and a PIN, whatever KeePassXC shows meanwhile.
pub proof fn a_copy_opens_the_chosen_database(
    turn: Turn,
    name: Seq<char>,
    pin: Seq<char>,
    first: FactsM,
    second: FactsM,
    third: FactsM,
)
    requires
        !turn.ui.busy(),
        first.config is Ok && first.vault_exists && first.vault is Ok,
        third.config is Ok && third.vault_exists && third.vault is Ok,
        first.vault->Ok_0.secret_for(Some(name)) is Some,
        pin.len() > 0,
    ensures
        ({
            let started = turn.start(TargetM::Copy(name), first);
            let waiting = Turn { ui: UiM { job: None, ..started.ui }, ..started };
            let asked = waiting.after_job(
                started.ui.job->0.next,
                Ok(OutcomeM::Devices(1)),
                second,
            );
            let run = asked.close_asking().take_pin(asked.ui.asking->0, pin, third);
            &&& asked.out.last() == (EffectM::ShowPin { note: None, database: Some(name) })
            &&& run.out.contains(
                EffectM::Run(WorkM::Unlock { database: Some(name), pin }),
            )
            &&& run.ui.pending == Some(TargetM::Copy(name))
        }),
{
    let started = turn.start(TargetM::Copy(name), first);
    let waiting = Turn { ui: UiM { job: None, ..started.ui }, ..started };
    let asked = waiting.after_job(started.ui.job->0.next, Ok(OutcomeM::Devices(1)), second);
    let run = asked.close_asking().take_pin(asked.ui.asking->0, pin, third);
    assert(run.out[run.out.len() - 2] == EffectM::Run(
        WorkM::Unlock { database: Some(name), pin },
    ));
}

/// How an unlock ends: a wrong PIN asks again, a missing key or a timeout offers to retry, any other
/// error is told and ends the attempt, and a password is copied or filled as the attempt asked.
pub proof fn an_unlock_ends_as_it_should(
    turn: Turn,
    target: TargetM,
    error: FidoFault,
    typed: Seq<char>,
    facts: FactsM,
    database: Option<Seq<char>>,
)
    requires
        !turn.ui.busy(),
        facts.now <= 0x7fff_ffff_ffff_ffff,
        target == TargetM::Fill ==> database == facts.database,
        target matches TargetM::Copy(name) ==> database == Some(name),
    ensures
        ({
            let failed = turn.finish(target, Err(error), facts);
            let notice = NoticeM::Fido { error };
            let done = turn.finish(target, Ok(encode_utf8(typed)), facts);
            let told = quiet(turn).push(EffectM::ShowMessage { notice, retry: false });
            &&& error is WrongPin ==> failed == (Turn {
                ui: UiM {
                    message: None,
                    asking: Some(AskingM { target, database }),
                    ..turn.ui
                },
                out: quiet(turn).push(EffectM::ShowPin { note: Some(notice), database }),
            })
            &&& error is NoDevice || error is Timeout ==> failed == (Turn {
                ui: UiM { message: Some(Some(target)), ..turn.ui },
                out: quiet(turn).push(EffectM::ShowMessage { notice, retry: true }),
            })
            &&& !(error is WrongPin || error is NoDevice || error is Timeout) ==> failed == (Turn {
                ui: UiM {
                    message: Some(None),
                    suppress_until: Some((facts.now + 3000) as u64),
                    ..turn.ui
                },
                out: if target is Fill {
                    told.push(EffectM::Activate)
                } else {
                    told
                },
            })
            &&& done.ui == turn.ui
            &&& target is Copy ==> done.out == turn.out.push(EffectM::Copy { text: typed })
            &&& target is Fill ==> done.out == turn.out.push(
                EffectM::Fill {
                    text: typed,
                    press: turn.ui.health matches Some(
                        HealthM { at, config: Ok(config) },
                    ) && config.autofill == Autofill::FillAndUnlock,
                },
            )
        }),
{
    encode_utf8_valid_utf8(typed);
    encode_utf8_decode_utf8(typed);
}

/// Bytes that are no text are neither copied nor filled.
pub proof fn a_password_that_is_no_text_is_told(
    turn: Turn,
    target: TargetM,
    secret: Seq<u8>,
    facts: FactsM,
)
    requires
        !valid_utf8(secret),
    ensures
        ({
            let told = quiet(turn).push(
                EffectM::ShowMessage { notice: NoticeM::NotUtf8, retry: false },
            );
            turn.finish(target, Ok(secret), facts).out == (if target is Fill {
                told.push(EffectM::Activate)
            } else {
                told
            })
        }),
{
}

/// Work on the worker thread starts at once, and a panel shows what to touch meanwhile.
pub open spec fn working(turn: Turn, work: WorkM, touch: TouchM, next: NextM) -> Turn {
    Turn {
        ui: UiM { job: Some(JobM { next, touch: true }), ..turn.ui },
        out: turn.out.push(EffectM::Run(work)).push(EffectM::ShowTouch(touch)),
    }
}

/// The form of a step is open, with a note on why the previous input was rejected.
pub open spec fn showing(
    turn: Turn,
    step: StepM,
    sheet: SheetM,
    note: Option<NoticeM>,
) -> Turn {
    Turn {
        ui: UiM { message: None, setup: Some(step), ..turn.ui },
        out: quiet(turn).push(EffectM::ShowSetup { sheet, note }),
    }
}

/// A message panel is open.
pub open spec fn telling(turn: Turn, notice: NoticeM) -> Turn {
    Turn {
        ui: UiM { message: Some(None), ..turn.ui },
        out: quiet(turn).push(EffectM::ShowMessage { notice, retry: false }),
    }
}

/// The set-password form stores the password exactly as typed, under the trimmed name, or under `*` for
/// a blank name. Unequal or empty passwords and a blank PIN reopen the form with a note.
pub proof fn a_typed_password_is_stored_under_the_typed_name(
    turn: Turn,
    values: Seq<Seq<char>>,
    facts: FactsM,
    vault: VaultModel,
)
    requires
        values.len() == 4,
        !turn.ui.busy(),
        turn.ui.key,
        facts.config is Ok,
        facts.vault == Ok::<VaultModel, Seq<char>>(vault),
    ensures
        ({
            let after = turn.submit(StepM::SetPassword, values, facts);
            let name = trimmed(values[0]);
            let pin = trimmed(values[3]);
            let sheet = SheetM::SetPassword {
                stored: vault.secrets.map_values(|s: SecretModel| s.database),
            };
            let stored = if name.len() == 0 {
                "*"@
            } else {
                name
            };
            &&& values[1].len() > 0 && values[1] == values[2] && pin.len() > 0 ==> after == working(
                turn,
                WorkM::SetSecret { database: stored, secret: values[1], pin },
                TouchM::Once,
                NextM::Report(NoticeM::Stored { database: stored }),
            )
            &&& values[1].len() == 0 ==> after == showing(
                turn,
                StepM::SetPassword,
                sheet,
                Some(NoticeM::EnterPassword),
            )
            &&& values[1].len() > 0 && values[1] != values[2] ==> after == showing(
                turn,
                StepM::SetPassword,
                sheet,
                Some(NoticeM::PasswordsDiffer),
            )
            &&& values[1].len() > 0 && values[1] == values[2] && pin.len() == 0 ==> after
                == showing(turn, StepM::SetPassword, sheet, Some(NoticeM::EnterPin))
        }),
{
    assert(database_names(vault.secrets) =~= vault.secrets.map_values(
        |s: SecretModel| s.database,
    ));
}

/// The set-up form creates the vault with the trimmed label, the password exactly as typed, under the
/// trimmed name, or under `*` for a blank name. Otherwise the form reopens with a note.
pub proof fn a_vault_is_set_up_as_typed(
    turn: Turn,
    values: Seq<Seq<char>>,
    facts: FactsM,
    config: ConfigModel,
)
    requires
        values.len() == 5,
        !turn.ui.busy(),
        turn.ui.key,
        facts.config == Ok::<ConfigModel, Seq<char>>(config),
        facts.folder_exists || facts.parent_exists,
        !facts.vault_exists,
    ensures
        ({
            let after = turn.submit(StepM::Create, values, facts);
            let label = trimmed(values[0]);
            let name = trimmed(values[1]);
            let pin = trimmed(values[4]);
            let typed = values[2].len() > 0 && values[2] == values[3];
            let sheet = SheetM::Create { vault: config.vault };
            &&& typed && label.len() > 0 && pin.len() > 0 ==> after == working(
                turn,
                WorkM::Create {
                    label,
                    database: if name.len() == 0 {
                        "*"@
                    } else {
                        name
                    },
                    secret: values[2],
                    pin,
                },
                TouchM::Twice,
                NextM::Report(NoticeM::Created { vault: config.vault }),
            )
            &&& values[2].len() == 0 ==> after == showing(
                turn,
                StepM::Create,
                sheet,
                Some(NoticeM::EnterPassword),
            )
            &&& values[2].len() > 0 && values[2] != values[3] ==> after == showing(
                turn,
                StepM::Create,
                sheet,
                Some(NoticeM::PasswordsDiffer),
            )
            &&& typed && label.len() == 0 ==> after == showing(
                turn,
                StepM::Create,
                sheet,
                Some(NoticeM::EnterLabel),
            )
            &&& typed && label.len() > 0 && pin.len() == 0 ==> after == showing(
                turn,
                StepM::Create,
                sheet,
                Some(NoticeM::EnterPin),
            )
        }),
{
}

/// Adding a key derives the output of an enrolled key first, and then enrolls the new key under the
/// trimmed label. A blank label or PIN reopens the form with a note.
pub proof fn a_key_is_added_as_typed(
    turn: Turn,
    values: Seq<Seq<char>>,
    current: UnlockModel,
    facts: FactsM,
)
    requires
        values.len() == 2,
        !turn.ui.busy(),
        turn.ui.key,
        facts.config is Ok,
        facts.vault is Ok,
    ensures
        ({
            let first = turn.submit(StepM::AddCurrent, values, facts);
            let pin = trimmed(values[0]);
            &&& pin.len() > 0 ==> first == working(
                turn,
                WorkM::Derive { pin },
                TouchM::Enrolled,
                NextM::AskNewKey,
            )
            &&& pin.len() == 0 ==> first == showing(
                turn,
                StepM::AddCurrent,
                SheetM::AddCurrent,
                Some(NoticeM::EnterPin),
            )
        }),
        ({
            let step = StepM::AddNew { current };
            let second = turn.submit(step, values, facts);
            let label = trimmed(values[0]);
            let pin = trimmed(values[1]);
            &&& label.len() > 0 && pin.len() > 0 ==> second == working(
                turn,
                WorkM::AddKey { current, label, pin },
                TouchM::NewTwice,
                NextM::Report(NoticeM::Added { label }),
            )
            &&& label.len() == 0 || pin.len() == 0 ==> second == showing(
                turn,
                step,
                SheetM::AddNew,
                Some(NoticeM::EnterLabelAndPin),
            )
        }),
{
}

/// A key that was chosen for removal is removed only with a touch of every key with another label, in
/// vault order. A label that is not enrolled, and the last key, are refused.
pub proof fn the_chosen_key_is_removed(
    turn: Turn,
    label: Seq<char>,
    facts: FactsM,
    vault: VaultModel,
)
    requires
        !turn.ui.busy(),
        facts.config is Ok,
        facts.vault == Ok::<VaultModel, Seq<char>>(vault),
    ensures
        ({
            let after = turn.submit(StepM::RemoveChoose, seq![label], facts);
            let enrolled = exists|i: int|
                0 <= i < vault.keys.len() && (#[trigger] vault.keys[i]).label == label;
            let left = vault.keys.filter(|k: KeyModel| k.label != label).map_values(
                |k: KeyModel| (k.label, k.cred_id),
            );
            &&& enrolled && vault.keys.len() > 1 ==> after.out == quiet(turn).push(
                EffectM::Run(WorkM::Devices),
            ) && after.ui == (UiM {
                message: None,
                key: false,
                job: Some(
                    JobM {
                        next: NextM::Devices(
                            AfterKeyM::Setup(
                                StepM::RemoveTouch { label, left, collected: Seq::empty() },
                            ),
                        ),
                        touch: false,
                    },
                ),
                ..turn.ui
            })
            &&& enrolled && vault.keys.len() <= 1 ==> after == telling(
                turn,
                NoticeM::Error { error: "The last key cannot be removed"@ },
            )
            &&& !enrolled ==> !after.ui.busy()
        }),
{
    crate::vault::rules::other_labels_are_kept(vault.keys, label);
    let kept = crate::vault::kept_keys(vault.keys, label);
    assert(crate::ops::touches(kept) =~= kept.map_values(|k: KeyModel| (k.label, k.cred_id)));
}

/// Each key that stays is touched in turn, with its own credential and PIN, and what is left is kept
/// for the next one.
pub proof fn the_next_key_that_stays_is_touched(
    turn: Turn,
    values: Seq<Seq<char>>,
    label: Seq<char>,
    left: Seq<(Seq<char>, Seq<u8>)>,
    collected: Seq<UnlockModel>,
    facts: FactsM,
)
    requires
        values.len() == 1,
        left.len() > 0,
        !turn.ui.busy(),
        turn.ui.key,
        facts.config is Ok,
        facts.vault is Ok,
    ensures
        ({
            let step = StepM::RemoveTouch { label, left, collected };
            let after = turn.submit(step, values, facts);
            let pin = trimmed(values[0]);
            &&& pin.len() > 0 ==> after == working(
                turn,
                WorkM::DeriveOne { cred_id: left[0].1, pin },
                TouchM::Named(left[0].0),
                NextM::Collect { label, left: left.skip(1), collected },
            )
            &&& pin.len() == 0 ==> after == showing(
                turn,
                step,
                SheetM::RemoveTouch { name: left[0].0 },
                Some(NoticeM::EnterPin),
            )
        }),
{
}

/// Without a config, a form on the vault does nothing.
pub proof fn a_form_needs_a_config(
    turn: Turn,
    step: StepM,
    values: Seq<Seq<char>>,
    facts: FactsM,
)
    requires
        facts.config is Err,
        !(step is Settings),
    ensures
        turn.submit(step, values, facts) == turn,
{
}

/// A form shows once the key is chosen, if it asks for a PIN, and the files that it needs load. Each
/// form shows what it is about.
pub proof fn a_form_opens_with_what_it_is_about(
    turn: Turn,
    note: Option<NoticeM>,
    facts: FactsM,
    config: ConfigModel,
    vault: VaultModel,
    current: UnlockModel,
    label: Seq<char>,
    left: Seq<(Seq<char>, Seq<u8>)>,
    collected: Seq<UnlockModel>,
)
    requires
        !turn.ui.busy(),
        turn.ui.key,
        facts.config == Ok::<ConfigModel, Seq<char>>(config),
        facts.vault == Ok::<VaultModel, Seq<char>>(vault),
        left.len() > 0,
    ensures
        ({
            let touch = StepM::RemoveTouch { label, left, collected };
            let new = StepM::AddNew { current };
            &&& (facts.folder_exists || facts.parent_exists) && !facts.vault_exists
                ==> turn.open_setup(StepM::Create, note, facts) == showing(
                turn,
                StepM::Create,
                SheetM::Create { vault: config.vault },
                note,
            )
            &&& turn.open_setup(StepM::AddCurrent, note, facts) == showing(
                turn,
                StepM::AddCurrent,
                SheetM::AddCurrent,
                note,
            )
            &&& turn.open_setup(new, note, facts) == showing(turn, new, SheetM::AddNew, note)
            &&& turn.open_setup(StepM::RemoveChoose, note, facts) == showing(
                turn,
                StepM::RemoveChoose,
                SheetM::RemoveChoose { labels: vault.keys.map_values(|k: KeyModel| k.label) },
                note,
            )
            &&& turn.open_setup(touch, note, facts) == showing(
                turn,
                touch,
                SheetM::RemoveTouch { name: left[0].0 },
                note,
            )
            &&& turn.open_setup(StepM::SetPassword, note, facts) == showing(
                turn,
                StepM::SetPassword,
                SheetM::SetPassword {
                    stored: vault.secrets.map_values(|s: SecretModel| s.database),
                },
                note,
            )
        }),
{
    assert(database_names(vault.secrets) =~= vault.secrets.map_values(
        |s: SecretModel| s.database,
    ));
    assert(key_labels(vault.keys) =~= vault.keys.map_values(|k: KeyModel| k.label));
}

/// The settings open whatever the files say and without a key. The other forms need a config, all but
/// the set-up form need the vault, and the set-up form refuses a vault that exists and a folder that
/// cannot be made.
pub proof fn a_form_that_cannot_open_says_why(
    turn: Turn,
    step: StepM,
    draft: Option<Seq<Seq<char>>>,
    note: Option<NoticeM>,
    facts: FactsM,
)
    requires
        !turn.ui.busy(),
    ensures
        turn.open_setup(StepM::Settings { draft }, note, facts).ui.setup == Some(
            StepM::Settings { draft },
        ),
        !(step is Settings) && (turn.ui.key || step is RemoveChoose) ==> {
            let after = turn.open_setup(step, note, facts);
            &&& facts.config matches Err(error) ==> after == telling(
                turn,
                NoticeM::NeedSettings { error },
            )
            &&& facts.config is Ok && facts.vault is Err && !(step is Create) ==> after == telling(
                turn,
                NoticeM::NeedSetUp { error: facts.vault->Err_0 },
            )
            &&& facts.config is Ok && step is Create && (facts.vault_exists || !(
            facts.folder_exists || facts.parent_exists)) ==> after.ui.setup is None
                && after.ui.message == Some(None::<TargetM>)
        },
        !(step is Settings) && !(step is RemoveChoose) && !turn.ui.key ==> turn.open_setup(
            step,
            note,
            facts,
        ) == (Turn {
            ui: UiM {
                message: None,
                job: Some(JobM { next: NextM::Devices(AfterKeyM::Setup(step)), touch: false }),
                ..turn.ui
            },
            out: quiet(turn).push(EffectM::Run(WorkM::Devices)),
        }),
{
}

/// Several keys blink until one is touched, one key is used at once, and without a key the user is told,
/// with the offer to retry for an attempt.
pub proof fn the_key_is_chosen_by_count(
    turn: Turn,
    step: StepM,
    target: TargetM,
    count: usize,
    facts: FactsM,
)
    requires
        !turn.ui.busy(),
    ensures
        ({
            let setup = NextM::Devices(AfterKeyM::Setup(step));
            let unlock = NextM::Devices(AfterKeyM::Unlock(target));
            let missing = NoticeM::Fido { error: FidoFault::NoDevice };
            &&& count > 1 ==> turn.after_job(setup, Ok(OutcomeM::Devices(count)), facts) == working(
                turn,
                WorkM::Select,
                TouchM::Choose,
                NextM::Chosen(AfterKeyM::Setup(step)),
            )
            &&& count > 1 ==> turn.after_job(unlock, Ok(OutcomeM::Devices(count)), facts)
                == working(
                turn,
                WorkM::Select,
                TouchM::Choose,
                NextM::Chosen(AfterKeyM::Unlock(target)),
            )
            &&& turn.after_job(setup, Ok(OutcomeM::Devices(1)), facts) == (Turn {
                ui: UiM { key: true, ..turn.ui },
                ..turn
            }).open_setup(step, None, facts)
            &&& turn.after_job(
                NextM::Chosen(AfterKeyM::Setup(step)),
                Ok(OutcomeM::Key),
                facts,
            ) == (Turn { ui: UiM { key: true, ..turn.ui }, ..turn }).open_setup(step, None, facts)
            &&& turn.after_job(setup, Ok(OutcomeM::Devices(0)), facts) == telling(turn, missing)
            &&& turn.after_job(unlock, Ok(OutcomeM::Devices(0)), facts) == (Turn {
                ui: UiM { message: Some(Some(target)), ..turn.ui },
                out: quiet(turn).push(EffectM::ShowMessage { notice: missing, retry: true }),
            })
        }),
{
}

/// A job that ends well is reported, and the files are checked again. The enrolled key's output lets
/// the new key in, which is chosen again. The last output that was collected starts the removal.
pub proof fn a_job_leads_on(
    turn: Turn,
    notice: NoticeM,
    outcome: OutcomeM,
    unlock: UnlockModel,
    label: Seq<char>,
    left: Seq<(Seq<char>, Seq<u8>)>,
    collected: Seq<UnlockModel>,
    facts: FactsM,
)
    requires
        !turn.ui.busy(),
        facts.config is Ok,
    ensures
        turn.after_job(NextM::Report(notice), Ok(outcome), facts) == telling(
            Turn { out: turn.out.push(EffectM::Recheck), ..turn },
            notice,
        ),
        turn.after_job(NextM::AskNewKey, Ok(OutcomeM::Unlock(unlock)), facts) == (Turn {
            ui: UiM {
                message: None,
                key: false,
                job: Some(
                    JobM {
                        next: NextM::Devices(
                            AfterKeyM::Setup(StepM::AddNew { current: unlock }),
                        ),
                        touch: false,
                    },
                ),
                ..turn.ui
            },
            out: quiet(turn).push(EffectM::Run(WorkM::Devices)),
        }),
        ({
            let after = turn.after_job(
                NextM::Collect { label, left, collected },
                Ok(OutcomeM::Unlock(unlock)),
                facts,
            );
            &&& left.len() == 0 ==> after == working(
                turn,
                WorkM::RemoveKey { label, remaining: collected.push(unlock) },
                TouchM::Saving,
                NextM::Report(NoticeM::Removed { label }),
            )
            &&& left.len() > 0 ==> after == (Turn {
                ui: UiM {
                    message: None,
                    key: false,
                    job: Some(
                        JobM {
                            next: NextM::Devices(
                                AfterKeyM::Setup(
                                    StepM::RemoveTouch {
                                        label,
                                        left,
                                        collected: collected.push(unlock),
                                    },
                                ),
                            ),
                            touch: false,
                        },
                    ),
                    ..turn.ui
                },
                out: quiet(turn).push(EffectM::Run(WorkM::Devices)),
            })
        }),
{
}

/// A job that fails is told in the words of its error, with the offer to retry where an attempt was
/// choosing its key.
pub proof fn a_failed_job_is_told(
    turn: Turn,
    next: NextM,
    target: TargetM,
    error: Seq<char>,
    facts: FactsM,
)
    ensures
        ({
            let notice = NoticeM::Error { error };
            let retried = Turn {
                ui: UiM { message: Some(Some(target)), ..turn.ui },
                out: quiet(turn).push(EffectM::ShowMessage { notice, retry: true }),
            };
            let of_attempt = match next {
                NextM::Devices(AfterKeyM::Unlock(_)) => true,
                NextM::Chosen(AfterKeyM::Unlock(_)) => true,
                _ => false,
            };
            &&& turn.after_job(NextM::Devices(AfterKeyM::Unlock(target)), Err(error), facts)
                == retried
            &&& turn.after_job(NextM::Chosen(AfterKeyM::Unlock(target)), Err(error), facts)
                == retried
            &&& !of_attempt ==> turn.after_job(next, Err(error), facts) == telling(turn, notice)
        }),
{
}

/// A form asks for a PIN exactly when its key is chosen first, and it has as many rows as values are
/// taken from it. What is secret is never shown: every PIN and password row is a secure one.
pub proof fn forms_match_their_steps(step: StepM, facts: FactsM)
    ensures
        ({
            let fields = sheet_fields(sheet_for(step, facts));
            &&& fields.len() == value_count(step)
            &&& asks_for_pin(step) <==> fields.contains(secret_field("PIN"@, false))
            &&& forall|i: int|
                0 <= i < fields.len() && ((#[trigger] fields[i]).label == "PIN"@
                    || fields[i].label == "Password"@ || fields[i].label == "Repeat"@) ==> (
                fields[i].kind matches KindModel::Text { value, secure: true, reveal }
                    && value.len() == 0)
        }),
{
    reveal_strlit("PIN");
    reveal_strlit("Password");
    reveal_strlit("Repeat");
    reveal_strlit("Key");
    reveal_strlit("Key label");
    reveal_strlit("Database file");
    reveal_strlit("Vault folder");
    reveal_strlit("Autofill");
    reveal_strlit("Copy Password");
    reveal_strlit("Clear after (s)");
    let sheet = sheet_for(step, facts);
    let fields = sheet_fields(sheet);
    let pin = secret_field("PIN"@, false);
    match step {
        StepM::Create => {
            assert(fields[0].label.len() == 9);
            assert(fields[1].label.len() == 13);
            assert(fields[4] == pin);
        },
        StepM::AddCurrent => assert(fields[0] == pin),
        StepM::AddNew { current } => {
            assert(fields[0].label.len() == 9);
            assert(fields[1] == pin);
        },
        StepM::RemoveTouch { label, left, collected } => assert(fields[0] == pin),
        StepM::SetPassword => {
            assert(fields[0].label.len() == 13);
            assert(fields[3] == pin);
        },
        StepM::RemoveChoose => {
            assert(fields[0].label.len() != pin.label.len() || fields[0].kind is Choice);
            assert(!fields.contains(pin));
        },
        StepM::Settings { draft } => {
            assert(fields[0].label.len() == 12);
            assert(fields[1].label.len() == 8);
            assert(fields[2].label.len() == 13);
            assert(fields[3].label.len() == 15);
            assert(fields[1].kind is Choice);
            assert(fields[2].kind is Choice);
            assert(!fields.contains(pin));
        },
    }
    assert forall|i: int|
        0 <= i < fields.len() && ((#[trigger] fields[i]).label == "PIN"@ || fields[i].label
            == "Password"@ || fields[i].label == "Repeat"@) implies (fields[i].kind matches
        KindModel::Text { value, secure: true, reveal } && value.len() == 0) by {
        assert(fields[i].label.len() == 3 || fields[i].label.len() == 8 || fields[i].label.len()
            == 6);
        assert(fields[i] == secret_field("PIN"@, false) || fields[i] == secret_field(
            "Password"@,
            true,
        ) || fields[i] == secret_field("Repeat"@, true)) by {
            assert("Autofill"@[0] == 'A');
            assert("Password"@[0] == 'P');
            assert("Key"@[0] == 'K');
            assert("PIN"@[0] == 'P');
            if i == 0 {
            } else if i == 1 {
            } else if i == 2 {
            } else if i == 3 {
            } else {
                assert(i == 4);
            }
        }
    }
}

/// A tick looks at the unlock, the job, the clipboard, the files, and KeePassXC, in this order, and does
/// something only where it is due: the files every two seconds, the clipboard once its time has come,
/// and KeePassXC only while autofill is on.
pub proof fn a_tick_does_what_is_due(ui: UiM, now: u64)
    ensures
        stage_after(Stage::Unlock) == Some(Stage::Job),
        stage_after(Stage::Job) == Some(Stage::Clipboard),
        stage_after(Stage::Clipboard) == Some(Stage::Health),
        stage_after(Stage::Health) == Some(Stage::Watch),
        stage_after(Stage::Watch) is None,
        ui.tick_action(Stage::Unlock, now) == (if ui.pending is Some {
            Some(TickAction::TakeUnlock)
        } else {
            None
        }),
        ui.tick_action(Stage::Job, now) == (if ui.job is Some {
            Some(TickAction::TakeJob)
        } else {
            None
        }),
        ui.clear is None ==> ui.tick_action(Stage::Clipboard, now) is None,
        ui.clear matches Some(clear) ==> (ui.tick_action(Stage::Clipboard, now) == (if clear.due
            <= now {
            Some(TickAction::ClearClipboard)
        } else {
            None
        })),
        ui.health is None ==> ui.tick_action(Stage::Health, now) == Some(TickAction::Check),
        ui.health matches Some(health) ==> (ui.tick_action(Stage::Health, now) == (if health.at
            + 2000 <= now {
            Some(TickAction::Check)
        } else {
            None
        })),
        ui.health is None ==> ui.tick_action(Stage::Watch, now) is None,
        ui.health matches Some(health) ==> {
            &&& health.config is Err ==> ui.tick_action(Stage::Watch, now) is None
            &&& health.config matches Ok(config) ==> (ui.tick_action(Stage::Watch, now) == (
            if config.autofill == Autofill::Off {
                None
            } else {
                Some(TickAction::Watch)
            }))
        },
{
}

/// A message says what it is about: the names, labels, and errors that it is given stand in it.
pub proof fn a_notice_names_what_it_is_about(name: Seq<char>)
    ensures
        (NoticeM::Error { error: name }).words() == name,
        has_part((NoticeM::NeedSettings { error: name }).words(), name),
        has_part((NoticeM::NeedSetUp { error: name }).words(), name),
        has_part((NoticeM::NoPassword { database: Some(name) }).words(), name),
        has_part((NoticeM::AutofillFailed { error: name }).words(), name),
        has_part((NoticeM::Created { vault: name }).words(), name),
        has_part((NoticeM::Added { label: name }).words(), crate::error::quoted_text(name)),
        has_part((NoticeM::Removed { label: name }).words(), crate::error::quoted_text(name)),
        name != "*"@ ==> has_part((NoticeM::Stored { database: name }).words(), name),
        has_part((NoticeM::CannotOpenConfig { error: name }).words(), name),
        has_part((NoticeM::CannotShowVault { error: name }).words(), name),
        has_part((NoticeM::LoginFailed { error: name }).words(), name),
        has_part((NoticeM::Help { exe: name }).words(), name),
        has_part(TouchM::Named(name).words(), name),
        has_part(pin_panel(None, Some(name)).message, name),
        has_part(about_panel(name).message, name),
{
    a_part_stands_between(""@, name, "\n\nChoose Settings… first."@);
    a_part_stands_between(""@, name, "\n\nChoose Set Up… first."@);
    let lead = "No password is stored for "@;
    let rest = ". Add one with Set Database Password… in the menu, or run:\nfido2kpxc set-secret --database "@
        + name;
    assert((NoticeM::NoPassword { database: Some(name) }).words() =~= lead + name + rest);
    a_part_stands_between(lead, name, rest);
    a_part_stands_between(
        "Autofill failed: "@,
        name,
        ". Type the password in KeePassXC, or set copy_password = true for a Copy Password fallback."@,
    );
    a_part_stands_between("Created the vault at "@, name, "."@);
    let quoted = crate::error::quoted_text(name);
    a_part_stands_between("Added key "@, quoted, "."@);
    a_part_stands_between(
        "Removed key "@,
        quoted,
        " and moved the vault to a new data key. If the key was lost, change the database password in KeePassXC, then choose Set Database Password…."@,
    );
    a_part_stands_between("Stored the password for "@, name, "."@);
    a_part_stands_between("Cannot open the config: "@, name, ""@);
    a_part_stands_between("Cannot show the vault: "@, name, ""@);
    a_part_stands_between("Start at Login failed: "@, name, ""@);
    a_part_stands_between(super::forms::HELP_TEXT@, name, ""@);
    a_part_stands_between("Touch the key \""@, name, "\"."@);
    a_part_stands_between("Enter your security key's FIDO2 PIN to unlock "@, name, "."@);
    a_part_stands_between(
        "fido2kpxc "@,
        name,
        "\nUnlock KeePassXC with a FIDO2 security key.\n\nCopyright 2026 Jessica Cox <jmcox@posteo.de>\nLicensed under the Apache License, Version 2.0."@,
    );
}

/// A panel offers what its event takes: a form is sent with Return and cancelled with Escape, so is the
/// PIN, and a message is retried only where that is offered.
pub proof fn a_panel_offers_its_actions(
    sheet: SheetM,
    note: Option<NoticeM>,
    database: Option<Seq<char>>,
    message: Seq<char>,
)
    ensures
        setup_panel(sheet, note).buttons.len() == 2,
        setup_panel(sheet, note).buttons[0].action == Action::SetupSubmit,
        setup_panel(sheet, note).buttons[0].key == Key::Return,
        setup_panel(sheet, note).buttons[1].action == Action::SetupCancel,
        setup_panel(sheet, note).buttons[1].key == Key::Escape,
        setup_panel(sheet, note).fields == sheet_fields(sheet),
        pin_panel(note, database).buttons.len() == 2,
        pin_panel(note, database).buttons[0].action == Action::PinSubmit,
        pin_panel(note, database).buttons[0].key == Key::Return,
        pin_panel(note, database).buttons[1].action == Action::PinCancel,
        pin_panel(note, database).buttons[1].key == Key::Escape,
        pin_panel(note, database).fields.len() == 1,
        pin_panel(note, database).fields[0].kind matches KindModel::Text { secure: true, .. },
        note matches Some(note) ==> pin_panel(Some(note), database).message == note.words(),
        note matches Some(n) ==> n.words().is_prefix_of(setup_panel(sheet, note).message),
        has_part(setup_panel(sheet, note).message, sheet_message(sheet)),
        message_panel(message, true).message == message,
        message_panel(message, false).message == message,
        message_panel(message, true).buttons.len() == 2,
        message_panel(message, true).buttons[0].action == Action::MessageRetry,
        message_panel(message, true).buttons[1].action == Action::MessageDismiss,
        message_panel(message, false).buttons.len() == 1,
        message_panel(message, false).buttons[0].action == Action::MessageDismiss,
{
    let body = sheet_message(sheet);
    let whole = setup_panel(sheet, note).message;
    match note {
        Some(n) => {
            assert(whole =~= (n.words() + "\n\n"@) + body + ""@) by {
                reveal_strlit("");
            }
            a_part_stands_between(n.words() + "\n\n"@, body, ""@);
            assert(whole.take(n.words().len() as int) =~= n.words());
        },
        None => {
            assert(whole.subrange(0, body.len() as int) =~= body);
            assert(stands_at(whole, body, 0));
        },
    }
}

/// While the PIN is asked for, an unlock waits, a form is open, or a job runs, nothing else starts.
pub proof fn nothing_starts_while_something_is_open(
    turn: Turn,
    target: TargetM,
    step: StepM,
    note: Option<NoticeM>,
    facts: FactsM,
)
    ensures
        turn.ui.busy() <==> turn.ui.asking is Some || turn.ui.pending is Some || turn.ui.setup is Some
            || turn.ui.job is Some,
        turn.ui.asking is Some || turn.ui.pending is Some || turn.ui.setup is Some
            || turn.ui.job is Some ==> turn.start(target, facts) == turn && turn.open_setup(
            step,
            note,
            facts,
        ) == turn && turn.pin_panel(target, note, facts) == turn,
{
}

/// The set-up form says which folder cannot be made, and which vault already exists.
pub proof fn a_vault_that_cannot_be_made_is_named(
    turn: Turn,
    note: Option<NoticeM>,
    facts: FactsM,
    config: ConfigModel,
)
    requires
        !turn.ui.busy(),
        turn.ui.key,
        facts.config == Ok::<ConfigModel, Seq<char>>(config),
    ensures
        !facts.folder_exists && !facts.parent_exists ==> turn.open_setup(
            StepM::Create,
            note,
            facts,
        ) == telling(
            turn,
            NoticeM::Error { error: (ConfigFault::NoFolder { folder: config.folder }).words() },
        ),
        (facts.folder_exists || facts.parent_exists) && facts.vault_exists ==> turn.open_setup(
            StepM::Create,
            note,
            facts,
        ) == telling(
            turn,
            NoticeM::Error { error: (ConfigFault::VaultExists { vault: config.vault }).words() },
        ),
{
}

/// A label that no key has is refused by its name, and a vault that does not load by its error.
pub proof fn a_removal_that_cannot_start_is_told(
    turn: Turn,
    label: Seq<char>,
    facts: FactsM,
    error: Seq<char>,
)
    requires
        facts.config is Ok,
    ensures
        ({
            let after = turn.submit(StepM::RemoveChoose, seq![label], facts);
            &&& facts.vault == Err::<VaultModel, Seq<char>>(error) ==> after == telling(
                turn,
                NoticeM::Error { error },
            )
            &&& facts.vault is Ok && (forall|i: int|
                0 <= i < facts.vault->Ok_0.keys.len() ==> (
                #[trigger] facts.vault->Ok_0.keys[i]).label != label) ==> after == telling(
                turn,
                NoticeM::Error {
                    error: "No key is labeled "@ + crate::error::quoted_text(label),
                },
            )
        }),
{
    reveal_strlit("");
    let words = "No key is labeled "@ + crate::error::quoted_text(label);
    assert(words + ""@ =~= words);
}

/// A job whose outcome is none that it could have is told as such. A removal without a config ends
/// silently.
pub proof fn a_job_without_its_outcome_is_told(
    turn: Turn,
    after: AfterKeyM,
    unlock: UnlockModel,
    label: Seq<char>,
    collected: Seq<UnlockModel>,
    facts: FactsM,
)
    ensures
        turn.after_job(NextM::Devices(after), Ok(OutcomeM::Key), facts) == telling(
            turn,
            NoticeM::Unexpected,
        ),
        turn.after_job(NextM::Devices(after), Ok(OutcomeM::Unlock(unlock)), facts) == telling(
            turn,
            NoticeM::Unexpected,
        ),
        turn.after_job(NextM::Chosen(after), Ok(OutcomeM::Unlock(unlock)), facts) == telling(
            turn,
            NoticeM::Unexpected,
        ),
        turn.after_job(NextM::AskNewKey, Ok(OutcomeM::Key), facts) == telling(
            turn,
            NoticeM::Unexpected,
        ),
        turn.after_job(
            NextM::Collect { label, left: Seq::empty(), collected },
            Ok(OutcomeM::Key),
            facts,
        ) == telling(turn, NoticeM::Unexpected),
        facts.config is Err ==> turn.after_job(
            NextM::Collect { label, left: Seq::empty(), collected },
            Ok(OutcomeM::Unlock(unlock)),
            facts,
        ) == turn,
{
}

/// The settings are written exactly as typed: the trimmed folder, the chosen autofill, the choice to
/// copy, and the delay. They are written only if the delay is a number of at most 3600 seconds and
/// the folder is absolute or below `~`.
pub proof fn typed_settings_are_written(
    turn: Turn,
    draft: Option<Seq<Seq<char>>>,
    values: Seq<Seq<char>>,
    facts: FactsM,
    home: Seq<char>,
    rest: Seq<char>,
    delay: u64,
)
    requires
        values.len() == 4,
        facts.home == Some(home),
        trimmed(values[3]) == decimal_text(delay as nat),
        delay <= 3600,
        ({
            let folder = trimmed(values[0]);
            ||| folder.len() > 0 && folder[0] == '/'
            ||| folder == seq!['~', '/'] + rest && dark_ends(rest) && home.len() > 0 && home[0] == '/'
        }),
        values[1] == "Fill and unlock"@ || values[1] == "Fill only"@ || values[1] == "Off"@,
    ensures
        ({
            let after = turn.submit(StepM::Settings { draft }, values, facts);
            let autofill = if values[1] == "Fill and unlock"@ {
                Autofill::FillAndUnlock
            } else if values[1] == "Fill only"@ {
                Autofill::Fill
            } else {
                Autofill::Off
            };
            let text = rendered(
                toml_string(trimmed(values[0])),
                autofill,
                values[2] == "On"@,
                delay,
            );
            &&& after.ui == turn.ui
            &&& after.out == turn.out.push(EffectM::WriteConfig { text, draft: values })
        }),
{
    decimal_reads_back(delay);
    reveal_strlit("~");
    assert("~"@ =~= seq!['~']);
    if trimmed(values[0])[0] == '/' {
        another_start_stays(trimmed(values[0]));
    } else {
        a_leading_tilde_comes_off(rest);
        a_relative_path_is_appended(home, rest);
    }
}

/// Settings that cannot be used reopen the form with everything that was typed and the reason: no
/// number, no home folder, too long a delay, or a relative folder.
pub proof fn rejected_settings_stay_typed(
    turn: Turn,
    draft: Option<Seq<Seq<char>>>,
    values: Seq<Seq<char>>,
    facts: FactsM,
    delay: u64,
)
    requires
        values.len() == 4,
        !turn.ui.busy(),
    ensures
        ({
            let after = turn.submit(StepM::Settings { draft }, values, facts);
            let typed = trimmed(values[3]);
            let again = StepM::Settings { draft: Some(values) };
            let number = typed == decimal_text(delay as nat);
            let sheet = SheetM::Settings {
                path: facts.path,
                values: SettingsM {
                    folder: values[0],
                    clear: values[3],
                    autofill: if values[1] == "Fill only"@ {
                        1
                    } else if values[1] == "Off"@ {
                        2
                    } else {
                        0
                    },
                    copy: if values[2] == "On"@ {
                        1
                    } else {
                        0
                    },
                },
            };
            &&& parsed_u64(typed) is None ==> after == showing(
                turn,
                again,
                sheet,
                Some(NoticeM::ClearNotANumber),
            )
            &&& number && facts.home is None ==> after == showing(
                turn,
                again,
                sheet,
                Some(NoticeM::Error { error: ConfigFault::NoHome.words() }),
            )
            &&& number && facts.home is Some && delay > 3600 ==> after == showing(
                turn,
                again,
                sheet,
                Some(NoticeM::Error { error: ConfigFault::ClearSeconds.words() }),
            )
            &&& number && facts.home is Some && delay <= 3600 && (trimmed(values[0]).len() == 0 || (
            trimmed(values[0])[0] != '~' && trimmed(values[0])[0] != '/')) ==> after == showing(
                turn,
                again,
                sheet,
                Some(NoticeM::Error { error: ConfigFault::RelativeFolder.words() }),
            )
        }),
{
    decimal_reads_back(delay);
    reveal_strlit("~");
    assert("~"@ =~= seq!['~']);
    reveal_strlit("Fill and unlock");
    reveal_strlit("Fill only");
    reveal_strlit("Off");
    assert("Fill and unlock"@.len() == 15);
    assert("Fill only"@.len() == 9);
    assert("Off"@.len() == 3);
    let folder = trimmed(values[0]);
    if folder.len() == 0 {
        assert(folder =~= Seq::<char>::empty());
        an_empty_path_stays();
    } else if folder[0] != '~' && folder[0] != '/' {
        another_start_stays(folder);
    }
}

/// The settings form starts with the settings in use: the folder with `~` for the home folder, and
/// options that stand for the same choices. Without any it starts with the defaults.
pub proof fn the_settings_form_starts_with_what_is_set(
    config: ConfigModel,
    home: Seq<char>,
    rest: Seq<char>,
)
    ensures
        ({
            let values = starting_values(None, Some(config), Some(home));
            let fresh = starting_values(None, None, Some(home));
            &&& home.len() > 0 && home[0] == '/' && home.last() != '/' && dark_ends(rest)
                && config.folder == home + seq!['/'] + rest ==> values.folder == "~/"@ + rest
            &&& starting_values(None, Some(config), None).folder == config.folder
            &&& parsed_u64(values.clear) == Some(config.clear_seconds)
            &&& values.autofill < 3
            &&& choice_of(autofill_options()[values.autofill as int]) == config.autofill
            &&& values.copy == (if config.copy_password {
                1usize
            } else {
                0usize
            })
            &&& fresh == (SettingsM { folder: ""@, clear: "20"@, autofill: 0, copy: 0 })
            &&& choice_of(autofill_options()[0]) == Autofill::FillAndUnlock
        }),
{
    decimal_reads_back(config.clear_seconds);
    reveal_strlit("Fill and unlock");
    reveal_strlit("Fill only");
    reveal_strlit("Off");
    assert("Fill and unlock"@.len() == 15);
    assert("Fill only"@.len() == 9);
    assert("Off"@.len() == 3);
    if home.len() > 0 && home[0] == '/' && home.last() != '/' && dark_ends(rest) && config.folder
        == home + seq!['/'] + rest {
        a_folder_comes_off(home, rest);
    }
}

/// The submenu names a database by its own name, and only the catch-all entry in words.
pub proof fn a_copy_item_is_titled_by_its_database(database: Seq<char>)
    ensures
        database != "*"@ ==> copy_title(database) == database,
        copy_title("*"@) == "Any other database"@,
{
}

/// Every action of the menu stands on exactly one line of it.
pub proof fn every_action_is_in_the_menu(action: MenuAction, i: int, j: int)
    ensures
        exists|k: int|
            0 <= k < menu_model().len() && (#[trigger] menu_model()[k] matches MenuLineM::Item {
                title,
                action: does,
            } && does == action),
        0 <= i < j < menu_model().len() && menu_model()[i] is Item && menu_model()[j] is Item
            ==> menu_model()[i]->action != menu_model()[j]->action,
{
    let menu = menu_model();
    let at: int = match action {
        MenuAction::Status => 0,
        MenuAction::CopyPassword => 2,
        MenuAction::SetUp => 4,
        MenuAction::AddKey => 5,
        MenuAction::RemoveKey => 6,
        MenuAction::SetPassword => 7,
        MenuAction::Settings => 9,
        MenuAction::OpenConfig => 10,
        MenuAction::ShowVault => 11,
        MenuAction::CopyDiagnostics => 12,
        MenuAction::Help => 13,
        MenuAction::GrantAccessibility => 15,
        MenuAction::ToggleLogin => 16,
        MenuAction::About => 18,
        MenuAction::Quit => 19,
    };
    assert(menu[at]->action == action);
}

/// Diagnostics list the states of the files, the settings in use, and every label and name, each where
/// it belongs. A file that does not load is listed with its error.
pub proof fn diagnostics_list_every_label_and_name(
    path: Seq<char>,
    config: ConfigModel,
    vault: VaultModel,
    error: Seq<char>,
    i: int,
)
    ensures
        file_lines(path, Err(error), Ok(vault)) == seq!["Config: "@ + error],
        ({
            let lines = file_lines(path, Ok(config), Err(error));
            &&& lines.len() == 3
            &&& lines[0] == "Config: "@ + path + " (loads)"@
            &&& lines[2] == "Vault: "@ + error
        }),
        ({
            let lines = file_lines(path, Ok(config), Ok(vault));
            let copy = if config.copy_password {
                ", Copy Password: "@ + "true"@
            } else {
                ", Copy Password: "@ + "false"@
            };
            let choice = match config.autofill {
                Autofill::Off => "Off"@,
                Autofill::Fill => "Fill"@,
                Autofill::FillAndUnlock => "FillAndUnlock"@,
            };
            &&& lines.len() == 5
            &&& lines[1] == "Autofill: "@ + choice + copy + ", clear after "@ + decimal_text(
                config.clear_seconds as nat,
            ) + " s"@
            &&& lines[2] == "Vault: "@ + config.vault + " (loads)"@
            &&& "Keys: "@.is_prefix_of(lines[3])
            &&& "Stored passwords: "@.is_prefix_of(lines[4])
            &&& 0 <= i < vault.keys.len() ==> has_part(lines[3], vault.keys[i].label)
            &&& 0 <= i < vault.secrets.len() ==> has_part(lines[4], vault.secrets[i].database)
        }),
{
    let lines = file_lines(path, Ok(config), Ok(vault));
    let labels = key_labels(vault.keys);
    let names = database_names(vault.secrets);
    assert(lines[3].take("Keys: "@.len() as int) =~= "Keys: "@);
    assert(lines[4].take("Stored passwords: "@.len() as int) =~= "Stored passwords: "@);
    assert(lines[1] =~= "Autofill: "@ + (match config.autofill {
        Autofill::Off => "Off"@,
        Autofill::Fill => "Fill"@,
        Autofill::FillAndUnlock => "FillAndUnlock"@,
    }) + (", Copy Password: "@ + (if config.copy_password {
        "true"@
    } else {
        "false"@
    })) + ", clear after "@ + decimal_text(config.clear_seconds as nat) + " s"@);
    if 0 <= i < vault.keys.len() {
        every_text_is_joined(labels, ", "@, i);
        later_part("Keys: "@, joined(labels, ", "@), labels[i]);
    }
    if 0 <= i < vault.secrets.len() {
        every_text_is_joined(names, ", "@, i);
        later_part("Stored passwords: "@, joined(names, ", "@), names[i]);
    }
}

proof fn later_part(before: Seq<char>, whole: Seq<char>, part: Seq<char>)
    requires
        has_part(whole, part),
    ensures
        has_part(before + whole, part),
{
    let at = choose|at: int| stands_at(whole, part, at);
    let on = before.len() + at;
    assert((before + whole).subrange(on, on + part.len()) =~= part);
    assert(stands_at(before + whole, part, on));
}

/// A bug report holds the version, the system, and every line on the files and on KeePassXC, and it
/// tells whether access is granted and whether the app starts at login.
pub proof fn a_bug_report_holds_every_line(
    version: Seq<char>,
    system: Seq<char>,
    files: Seq<Seq<char>>,
    trusted: bool,
    login: bool,
    keepassxc: Seq<Seq<char>>,
    i: int,
)
    ensures
        ({
            let text = report_text(version, system, files, trusted, login, keepassxc);
            &&& has_part(text, "fido2kpxc "@ + version + " diagnostics"@)
            &&& has_part(text, "\n"@ + ("macOS: "@ + system))
            &&& 0 <= i < files.len() ==> has_part(text, "\n"@ + files[i])
            &&& 0 <= i < keepassxc.len() ==> has_part(text, "\n"@ + keepassxc[i])
            &&& trusted ==> has_part(text, "\n"@ + ("Accessibility: "@ + "granted"@))
            &&& !trusted ==> has_part(text, "\n"@ + ("Accessibility: "@ + "not granted"@))
            &&& login ==> has_part(text, "\n"@ + ("Start at Login: "@ + "true"@))
            &&& !login ==> has_part(text, "\n"@ + ("Start at Login: "@ + "false"@))
            &&& text.last() == '\n'
        }),
{
    reveal_strlit("\n");
    let access = if trusted {
        "granted"@
    } else {
        "not granted"@
    };
    let start = if login {
        "true"@
    } else {
        "false"@
    };
    let lines = seq!["fido2kpxc "@ + version + " diagnostics"@, "macOS: "@ + system] + files + seq![
        "Accessibility: "@ + access,
        "Start at Login: "@ + start,
    ] + keepassxc;
    let whole = joined(lines, "\n"@);
    let text = report_text(version, system, files, trusted, login, keepassxc);
    assert(text =~= whole + "\n"@);
    every_text_is_joined(lines, "\n"@, 0);
    earlier_part(whole, "\n"@, lines[0]);
    every_text_is_joined(lines, "\n"@, 1);
    earlier_part(whole, "\n"@, "\n"@ + lines[1]);
    let n = files.len() as int;
    every_text_is_joined(lines, "\n"@, n + 2);
    earlier_part(whole, "\n"@, "\n"@ + lines[n + 2]);
    every_text_is_joined(lines, "\n"@, n + 3);
    earlier_part(whole, "\n"@, "\n"@ + lines[n + 3]);
    if 0 <= i < files.len() {
        assert(lines[i + 2] == files[i]);
        every_text_is_joined(lines, "\n"@, i + 2);
        earlier_part(whole, "\n"@, "\n"@ + files[i]);
    }
    if 0 <= i < keepassxc.len() {
        assert(lines[n + 4 + i] == keepassxc[i]);
        every_text_is_joined(lines, "\n"@, n + 4 + i);
        earlier_part(whole, "\n"@, "\n"@ + keepassxc[i]);
    }
}

proof fn earlier_part(whole: Seq<char>, behind: Seq<char>, part: Seq<char>)
    requires
        has_part(whole, part),
    ensures
        has_part(whole + behind, part),
{
    let at = choose|at: int| stands_at(whole, part, at);
    assert((whole + behind).subrange(at, at + part.len()) =~= part);
    assert(stands_at(whole + behind, part, at));
}

/// The pieces that events are made of: a new flow forgets the key, a message replaces the one that is
/// open, and the settings in use are those of the last check, if it succeeded.
pub proof fn events_are_made_of_small_steps(
    turn: Turn,
    notice: NoticeM,
    target: TargetM,
    at: u64,
    config: ConfigModel,
    error: Seq<char>,
)
    ensures
        turn.begin_flow() == (Turn { ui: UiM { key: false, ..turn.ui }, ..turn }),
        turn.alert(notice) == telling(turn, notice),
        turn.show(notice, Some(target)) == (Turn {
            ui: UiM { message: Some(Some(target)), ..turn.ui },
            out: quiet(turn).push(EffectM::ShowMessage { notice, retry: true }),
        }),
        turn.close_message() == (Turn { ui: UiM { message: None, ..turn.ui }, out: quiet(turn) }),
        (UiM { health: Some(HealthM { at, config: Ok(config) }), ..turn.ui }).config() == Some(
            config,
        ),
        (UiM { health: Some(HealthM { at, config: Err(error) }), ..turn.ui }).config() is None,
        (UiM { health: None, ..turn.ui }).config() is None,
{
}

/// A form says what it is about: where the vault goes, which key to insert, what is stored already, and
/// where the settings are saved.
pub proof fn a_form_says_what_it_is_about(
    text: Seq<char>,
    stored: Seq<Seq<char>>,
    values: SettingsM,
)
    ensures
        has_part(sheet_message(SheetM::Create { vault: text }), text),
        has_part(sheet_message(SheetM::RemoveTouch { name: text }), text),
        has_part(sheet_message(SheetM::SetPassword { stored }), crate::ops::listed(stored)),
        has_part(sheet_message(SheetM::Settings { path: Some(text), values }), text),
        has_part(
            sheet_message(SheetM::Settings { path: None, values }),
            "the config file"@,
        ),
{
    a_part_stands_between(
        "Set up fido2kpxc with this security key. The vault goes to "@,
        text,
        ". Leave the database file blank to use the password for any database. After Set Up, touch the key twice."@,
    );
    a_part_stands_between("Insert the key \""@, text, "\", enter its PIN, then touch it."@);
    a_part_stands_between(
        "Enter the database file name, such as pdb.kdbx, and its password. Leave the name blank for any other database. Stored now: "@,
        crate::ops::listed(stored),
        ". Then touch your security key."@,
    );
    let lead = "The vault lives in the vault folder as vault.toml. A path starting with ~/ works on every Mac. Settings are saved to "@;
    a_part_stands_between(lead, text, "."@);
    a_part_stands_between(lead, "the config file"@, "."@);
}

/// Work is seen by what it works on: every name, label, password, PIN, and output that it holds.
pub proof fn work_is_seen_as_it_is(work: Work)
    ensures
        match work {
            Work::Devices => work@ is Devices,
            Work::Select => work@ is Select,
            Work::Create { label, database, secret, pin } => work@ == (WorkM::Create {
                label: label@,
                database: database@,
                secret: secret@,
                pin: pin@,
            }),
            Work::Derive { pin } => work@ == (WorkM::Derive { pin: pin@ }),
            Work::AddKey { current, label, pin } => work@ == (WorkM::AddKey {
                current: UnlockModel { cred_id: current.cred_id@, output: current.output@ },
                label: label@,
                pin: pin@,
            }),
            Work::DeriveOne { cred_id, pin } => work@ == (WorkM::DeriveOne {
                cred_id: cred_id@,
                pin: pin@,
            }),
            Work::SetSecret { database, secret, pin } => work@ == (WorkM::SetSecret {
                database: database@,
                secret: secret@,
                pin: pin@,
            }),
            Work::RemoveKey { label, remaining } => work@ == (WorkM::RemoveKey {
                label: label@,
                remaining: unlocks(remaining@),
            }),
            Work::Unlock { database: Some(name), pin } => work@ == (WorkM::Unlock {
                database: Some(name@),
                pin: pin@,
            }),
            Work::Unlock { database: None, pin } => work@ == (WorkM::Unlock {
                database: None,
                pin: pin@,
            }),
        },
{
}

/// Effects are seen one by one, in order, each by what it carries.
pub proof fn effects_are_seen_as_they_are(out: Seq<Effect>, i: int)
    requires
        0 <= i < out.len(),
    ensures
        effects(out).len() == out.len(),
        match out[i] {
            Effect::CloseMessage => effects(out)[i] is CloseMessage,
            Effect::CloseAsking => effects(out)[i] is CloseAsking,
            Effect::CloseSetup => effects(out)[i] is CloseSetup,
            Effect::CloseTouch => effects(out)[i] is CloseTouch,
            Effect::ShowMessage { notice, retry } => effects(out)[i] == (EffectM::ShowMessage {
                notice: notice@,
                retry,
            }),
            Effect::ShowAbout => effects(out)[i] is ShowAbout,
            Effect::ShowPin { note: None, database: Some(name) } => effects(out)[i] == (
            EffectM::ShowPin { note: None, database: Some(name@) }),
            Effect::ShowPin { note: Some(note), database: Some(name) } => effects(out)[i] == (
            EffectM::ShowPin { note: Some(note@), database: Some(name@) }),
            Effect::ShowPin { .. } => effects(out)[i] is ShowPin,
            Effect::ShowSetup { sheet, note: None } => effects(out)[i] == (EffectM::ShowSetup {
                sheet: sheet@,
                note: None,
            }),
            Effect::ShowSetup { sheet, note: Some(note) } => effects(out)[i] == (
            EffectM::ShowSetup { sheet: sheet@, note: Some(note@) }),
            Effect::ShowTouch(touch) => effects(out)[i] == EffectM::ShowTouch(touch@),
            Effect::Run(work) => effects(out)[i] == EffectM::Run(work@),
            Effect::Activate => effects(out)[i] is Activate,
            Effect::Copy { text } => effects(out)[i] == (EffectM::Copy { text: text@ }),
            Effect::Fill { text, press } => effects(out)[i] == (EffectM::Fill {
                text: text@,
                press,
            }),
            Effect::Recheck => effects(out)[i] is Recheck,
            Effect::WriteConfig { text, draft } => effects(out)[i] == (EffectM::WriteConfig {
                text: text@,
                draft: texts(draft@),
            }),
            Effect::Icon { healthy } => effects(out)[i] == (EffectM::Icon { healthy }),
        },
{
}

/// The facts that an event finds are seen as they are.
pub proof fn facts_are_seen_as_they_are(facts: Facts)
    ensures
        match facts.config {
            Ok(config) => facts@.config == Ok::<ConfigModel, Seq<char>>(config@),
            Err(error) => facts@.config == Err::<ConfigModel, Seq<char>>(error@),
        },
        match facts.vault {
            Ok(vault) => facts@.vault == Ok::<VaultModel, Seq<char>>(vault@),
            Err(error) => facts@.vault == Err::<VaultModel, Seq<char>>(error@),
        },
        match facts.database {
            Some(name) => facts@.database == Some(name@),
            None => facts@.database is None,
        },
        match facts.home {
            Some(home) => facts@.home == Some(home@),
            None => facts@.home is None,
        },
        match facts.path {
            Some(path) => facts@.path == Some(path@),
            None => facts@.path is None,
        },
        facts@.folder_exists == facts.folder_exists,
        facts@.parent_exists == facts.parent_exists,
        facts@.vault_exists == facts.vault_exists,
        facts@.now == facts.now,
        facts@.loads() <==> facts.config is Ok && facts.vault is Ok && facts.vault_exists,
{
}

} // verus!
