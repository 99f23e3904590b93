use vstd::prelude::*;
use vstd::string::StrSliceExecFns;
use vstd::string::StringExecFns;

use crate::entities::{NotificationConfig, User};
use crate::error::AppError;
use crate::scope::{can_read_settings, is_admin, spec_can_read_settings, spec_is_admin};
use crate::store::Store;

verus! {

/// The upsert payload for the singleton SMTP configuration.
pub struct NotificationConfigRequest {
    pub smtp_host: String,
    pub smtp_port: i32,
    pub smtp_user: String,
    pub smtp_pass: String,
    pub sender_email: String,
    pub is_active: bool,
}

/// The request to probe the stored configuration with one message.
pub struct TestEmailRequest {
    pub email: String,
}

/// The mail dispatcher's verified face: it selects the configuration a
/// send would use. The SMTP conversation itself lives outside the library.
pub struct EmailService;

/// The placeholder a client sends back instead of the real secret.
pub open spec fn spec_masked_pass() -> Seq<char> {
    "******"@
}

/// A stored secret is replaced when the payload carries a real value: not
/// the placeholder and not empty.
pub open spec fn spec_pass_replaces(payload_pass: Seq<char>) -> bool {
    payload_pass != spec_masked_pass() && payload_pass.len() > 0
}

/// The configuration row an upsert produces from the stored row and the
/// payload.
pub open spec fn spec_config_upserted(
    existing: Option<NotificationConfig>,
    payload: NotificationConfigRequest,
    now: i64,
) -> NotificationConfig {
    match existing {
        Some(cfg) => NotificationConfig {
            smtp_host: payload.smtp_host,
            smtp_port: payload.smtp_port,
            smtp_user: payload.smtp_user,
            smtp_pass: if spec_pass_replaces(payload.smtp_pass@) {
                payload.smtp_pass
            } else {
                cfg.smtp_pass
            },
            sender_email: payload.sender_email,
            is_active: payload.is_active,
            updated_at: now,
            ..cfg
        },
        None => NotificationConfig {
            id: 1,
            smtp_host: payload.smtp_host,
            smtp_port: payload.smtp_port,
            smtp_user: payload.smtp_user,
            smtp_pass: payload.smtp_pass,
            sender_email: payload.sender_email,
            is_active: payload.is_active,
            created_at: now,
            updated_at: now,
        },
    }
}

/// Reads the notification configuration; administrative roles only. When
/// no row exists yet, a blank inactive default on port 587 is reported.
/// Only a superadmin sees the stored secret; anyone else gets the
/// placeholder.
pub fn get_notification_config(store: &Store, actor: &User, now: i64) -> (r: Result<
    NotificationConfig,
    AppError,
>)
    ensures
        r is Ok <==> spec_can_read_settings(*actor),
        !spec_can_read_settings(*actor) ==> r == Err::<NotificationConfig, AppError>(
            AppError::Forbidden,
        ),
        r matches Ok(c) ==> match store.notification_config {
            Some(cfg) => {
                &&& c == NotificationConfig { smtp_pass: c.smtp_pass, ..cfg }
                &&& (spec_is_admin(*actor) ==> c.smtp_pass == cfg.smtp_pass)
                &&& (!spec_is_admin(*actor) ==> c.smtp_pass@ == spec_masked_pass())
            },
            None => {
                &&& c.id == 0 && c.smtp_port == 587 && !c.is_active
                &&& c.smtp_host@.len() == 0 && c.smtp_user@.len() == 0
                &&& c.sender_email@.len() == 0
                &&& (spec_is_admin(*actor) ==> c.smtp_pass@.len() == 0)
                &&& (!spec_is_admin(*actor) ==> c.smtp_pass@ == spec_masked_pass())
                &&& c.created_at == now && c.updated_at == now
            },
        },
{
    if !can_read_settings(actor) {
        return Err(AppError::Forbidden);
    }
    let mut cfg = match &store.notification_config {
        Some(c) => c.clone(),
        None => NotificationConfig {
            id: 0,
            smtp_host: String::new(),
            smtp_port: 587,
            smtp_user: String::new(),
            smtp_pass: String::new(),
            sender_email: String::new(),
            is_active: false,
            created_at: now,
            updated_at: now,
        },
    };
    if !is_admin(actor) {
        cfg.smtp_pass = String::from_str("******");
    }
    Ok(cfg)
}

/// Upserts the notification configuration. Superadmin only. A payload
/// secret that is empty or the placeholder keeps the stored secret.
pub fn update_notification_config(
    store: &mut Store,
    actor: &User,
    payload: NotificationConfigRequest,
    now: i64,
) -> (r: Result<NotificationConfig, AppError>)
    requires
        old(store).wf(),
    ensures
        final(store).wf(),
        r is Ok <==> spec_is_admin(*actor),
        !spec_is_admin(*actor) ==> r == Err::<NotificationConfig, AppError>(AppError::Forbidden)
            && *final(store) == *old(store),
        r matches Ok(c) ==> {
            &&& c == spec_config_upserted(old(store).notification_config, payload, now)
            &&& final(store).notification_config == Some(c)
            &&& *final(store) == Store {
                notification_config: final(store).notification_config,
                ..*old(store)
            }
        },
{
    if !is_admin(actor) {
        return Err(AppError::Forbidden);
    }
    let placeholder = String::from_str("******");
    let replaces = !payload.smtp_pass.eq(&placeholder) && payload.smtp_pass.as_str().unicode_len()
        > 0;
    proof {
        assert(replaces == spec_pass_replaces(payload.smtp_pass@));
    }
    let cfg = match &store.notification_config {
        Some(existing) => {
            let kept_pass = if replaces {
                payload.smtp_pass
            } else {
                existing.smtp_pass.clone()
            };
            NotificationConfig {
                id: existing.id,
                smtp_host: payload.smtp_host,
                smtp_port: payload.smtp_port,
                smtp_user: payload.smtp_user,
                smtp_pass: kept_pass,
                sender_email: payload.sender_email,
                is_active: payload.is_active,
                created_at: existing.created_at,
                updated_at: now,
            }
        },
        None => NotificationConfig {
            id: 1,
            smtp_host: payload.smtp_host,
            smtp_port: payload.smtp_port,
            smtp_user: payload.smtp_user,
            smtp_pass: payload.smtp_pass,
            sender_email: payload.sender_email,
            is_active: payload.is_active,
            created_at: now,
            updated_at: now,
        },
    };
    let result = cfg.clone();
    store.notification_config = Some(cfg);
    Ok(result)
}

impl EmailService {
    /// The configuration an outbound send would use: the stored row, when
    /// it exists and is active; otherwise sending is a logged no-op.
    pub fn active_config(store: &Store) -> (r: Option<NotificationConfig>)
        ensures
            match store.notification_config {
                Some(cfg) => r == (if cfg.is_active {
                    Some(cfg)
                } else {
                    None::<NotificationConfig>
                }),
                None => r is None,
            },
    {
        match &store.notification_config {
            Some(cfg) => {
                if cfg.is_active {
                    Some(cfg.clone())
                } else {
                    None
                }
            },
            None => None,
        }
    }
}

} // verus!
