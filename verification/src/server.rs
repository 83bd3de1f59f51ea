//! Starting the reapers: which dataset goes with which key and record.

use crate::config::Task1Settings;
use crate::logic::captcha::{CaptchaFields, CaptchaID};
use crate::logic::email::confirm_email::ConfirmEmail;
use crate::logic::email::url_token::URLToken;
use crate::store::{without, MemoryHash};
use crate::tasks::error::{Task1Error, Task1Failure};
use crate::tasks::redis_fields_deletion::Task1Config;
use crate::tasks::sweep::{
    batches_of, expired_count, expired_keys, readable, redis_fields_deletion_task, PassReport,
};
use crate::text::same_text;
use vstd::prelude::*;

verus! {

/// The datasets the service keeps.
#[derive(Clone, Copy, Debug, PartialEq, Eq, Structural)]
pub enum Dataset {
    /// Email confirmation records, under URL tokens.
    Email,
    /// Captcha answers, under captcha ids.
    Captcha,
}

/// The name of the email dataset.
pub open spec fn email_hash_name() -> Seq<char> {
    seq!['e', 'm', 'a', 'i', 'l']
}

/// The name of the captcha dataset.
pub open spec fn captcha_hash_name() -> Seq<char> {
    seq!['c', 'a', 'p', 't', 'c', 'h', 'a']
}

/// The dataset that goes by `hash_name`. A name that is neither dataset's
/// is a configuration error.
pub fn dataset_named(hash_name: &str) -> (found: Result<Dataset, Task1Error>)
    ensures
        match found {
            Ok(Dataset::Email) => hash_name@ == email_hash_name(),
            Ok(Dataset::Captcha) => hash_name@ == captcha_hash_name(),
            Err(e) => hash_name@ != email_hash_name() && hash_name@ != captcha_hash_name() && e@
                == Task1Failure::InvalidHashName,
        },
{
    proof {
        reveal_strlit("email");
        reveal_strlit("captcha");
    }
    assert("email"@ =~= email_hash_name());
    assert("captcha"@ =~= captcha_hash_name());
    assert(email_hash_name().len() != captcha_hash_name().len());
    if same_text(hash_name, "email") {
        Ok(Dataset::Email)
    } else if same_text(hash_name, "captcha") {
        Ok(Dataset::Captcha)
    } else {
        Err(Task1Error::InvalidHashName)
    }
}

/// One pass of the reaper of the dataset `hash_name` over `store`, with
/// that dataset's settings and its kinds of key and record. An unknown
/// name fails before anything is read.
pub fn start_redis_fields_deletion_task(
    store: MemoryHash,
    task1_email_confirm: Task1Settings,
    task1_captcha: Task1Settings,
    hash_name: &str,
    now: i64,
) -> (outcome: Result<(MemoryHash, PassReport), Task1Error>)
    requires
        store.wf(),
        hash_name@ == email_hash_name() ==> task1_email_confirm.deletion_bulk_count >= 1,
        hash_name@ == captcha_hash_name() ==> task1_captcha.deletion_bulk_count >= 1,
    ensures
        match outcome {
            Err(e) => hash_name@ != email_hash_name() && hash_name@ != captcha_hash_name() && e@
                == Task1Failure::InvalidHashName,
            Ok((left, report)) => if hash_name@ == email_hash_name() {
                let e = task1_email_confirm.expiry_time as int;
                &&& left.wf()
                &&& report.scanned == readable::<ConfirmEmail>(store@)
                &&& left@ == without(
                    store@,
                    expired_keys::<ConfirmEmail>(store@.take(report.scanned as int), now as int, e),
                )
                &&& report.batches@ == batches_of(
                    expired_count::<ConfirmEmail>(store@.take(report.scanned as int), now as int, e),
                    task1_email_confirm.deletion_bulk_count as nat,
                )
            } else {
                let e = task1_captcha.expiry_time as int;
                &&& hash_name@ == captcha_hash_name()
                &&& left.wf()
                &&& report.scanned == readable::<CaptchaFields>(store@)
                &&& left@ == without(
                    store@,
                    expired_keys::<CaptchaFields>(
                        store@.take(report.scanned as int),
                        now as int,
                        e,
                    ),
                )
                &&& report.batches@ == batches_of(
                    expired_count::<CaptchaFields>(
                        store@.take(report.scanned as int),
                        now as int,
                        e,
                    ),
                    task1_captcha.deletion_bulk_count as nat,
                )
            },
        },
{
    assert(email_hash_name().len() != captcha_hash_name().len());
    match dataset_named(hash_name) {
        Err(e) => Err(e),
        Ok(Dataset::Email) => {
            let task1_cfg = Task1Config::new(
                store,
                hash_name,
                task1_email_confirm.expiry_time,
                task1_email_confirm.deletion_bulk_count,
            );
            redis_fields_deletion_task::<URLToken, ConfirmEmail>(task1_cfg, now)
        },
        Ok(Dataset::Captcha) => {
            let task1_cfg = Task1Config::new(
                store,
                hash_name,
                task1_captcha.expiry_time,
                task1_captcha.deletion_bulk_count,
            );
            redis_fields_deletion_task::<CaptchaID, CaptchaFields>(task1_cfg, now)
        },
    }
}

} // verus!
