use faucet_core::models::{
    channel_from_db, parse_channel, parse_role, role_from_db, status_from_db, Channel, MintStatus,
    ParseError, Role,
};

#[test]
fn names_of_channels_roles_and_statuses() {
    assert_eq!(Channel::Web.as_str(), "web");
    assert_eq!(Channel::Telegram.as_str(), "telegram");
    assert_eq!(Channel::Discord.as_str(), "discord");
    assert_eq!(Role::User.as_str(), "user");
    assert_eq!(Role::Privileged.as_str(), "privileged");
    assert_eq!(Role::Admin.as_str(), "admin");
    assert_eq!(MintStatus::Pending.as_str(), "pending");
    assert_eq!(MintStatus::Processing.as_str(), "processing");
    assert_eq!(MintStatus::Completed.as_str(), "completed");
    assert_eq!(MintStatus::Failed.as_str(), "failed");
}

#[test]
fn stored_names_are_read_in_any_case() {
    assert_eq!(channel_from_db("WEB"), Ok(Channel::Web));
    assert_eq!(channel_from_db("Telegram"), Ok(Channel::Telegram));
    assert_eq!(channel_from_db("discord"), Ok(Channel::Discord));
    assert_eq!(role_from_db("ADMIN"), Ok(Role::Admin));
    assert_eq!(role_from_db("Privileged"), Ok(Role::Privileged));
    assert_eq!(role_from_db("user"), Ok(Role::User));
    assert_eq!(status_from_db("Pending"), Ok(MintStatus::Pending));
    assert_eq!(status_from_db("PROCESSING"), Ok(MintStatus::Processing));
    assert_eq!(status_from_db("completed"), Ok(MintStatus::Completed));
    assert_eq!(status_from_db("Failed"), Ok(MintStatus::Failed));
}

#[test]
fn unknown_stored_names_are_refused_lower_cased() {
    assert_eq!(channel_from_db("Slack"), Err(ParseError::UnknownChannel("slack".to_string())));
    assert_eq!(role_from_db("Owner"), Err(ParseError::UnknownRole("owner".to_string())));
    assert_eq!(status_from_db("Done"), Err(ParseError::UnknownStatus("done".to_string())));
}

#[test]
fn request_parameters_are_read_exactly() {
    assert_eq!(parse_role("admin"), Ok(Role::Admin));
    assert_eq!(parse_role("privileged"), Ok(Role::Privileged));
    assert_eq!(parse_role("user"), Ok(Role::User));
    assert_eq!(parse_role("Admin"), Err(ParseError::UnknownRole("Admin".to_string())));
    assert_eq!(parse_channel("telegram"), Ok(Channel::Telegram));
    assert_eq!(parse_channel("web"), Ok(Channel::Web));
    assert_eq!(parse_channel("discord"), Ok(Channel::Discord));
    assert_eq!(parse_channel("WEB"), Err(ParseError::UnknownChannel("WEB".to_string())));
    assert_eq!(parse_channel(""), Err(ParseError::UnknownChannel(String::new())));
}

#[test]
fn names_parse_through_from_str() {
    assert_eq!("Discord".parse::<Channel>(), Ok(Channel::Discord));
    assert_eq!("PRIVILEGED".parse::<Role>(), Ok(Role::Privileged));
    assert_eq!("Completed".parse::<MintStatus>(), Ok(MintStatus::Completed));
    assert_eq!("nope".parse::<MintStatus>(), Err(ParseError::UnknownStatus("nope".to_string())));
}
