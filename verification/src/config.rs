//! The settings of the service.
use crate::matrix::{BotConfig, BotConfigModel, Nickname};
use crate::text;
use vstd::prelude::*;

verus! {

/// How much the service logs.
#[derive(Debug, Clone, Copy, PartialEq, Eq, Structural)]
pub enum LogLevel {
    Error,
    Warn,
    Info,
    Debug,
    Trace,
}

impl LogLevel {
    /// The name of the level.
    pub open spec fn name(self) -> Seq<char> {
        match self {
            LogLevel::Error => "error"@,
            LogLevel::Warn => "warn"@,
            LogLevel::Info => "info"@,
            LogLevel::Debug => "debug"@,
            LogLevel::Trace => "trace"@,
        }
    }

    /// The name of the level.
    pub fn as_str(&self) -> (name: &'static str)
        ensures
            name@ == self.name(),
    {
        match self {
            LogLevel::Error => "error",
            LogLevel::Warn => "warn",
            LogLevel::Info => "info",
            LogLevel::Debug => "debug",
            LogLevel::Trace => "trace",
        }
    }

    /// The filter that lets messages of the service through up to the level.
    pub fn filter(&self) -> (filter: String)
        ensures
            filter@ == "system="@ + self.name(),
    {
        text::concat("system=", self.as_str())
    }
}

/// The settings of the Matrix bot.
#[derive(Debug)]
pub struct MatrixConfig {
    pub enabled: bool,
    pub homeserver: String,
    pub username: String,
    pub password: String,
    pub security_key: String,
    pub admins: Option<Vec<Nickname>>,
}

impl MatrixConfig {
    /// The account of the bot that the settings ask for.
    pub open spec fn bot(self) -> BotConfigModel {
        BotConfigModel {
            homeserver: self.homeserver@,
            username: self.username@,
            password: self.password@,
            admins: match self.admins {
                Some(admins) => crate::matrix::nickname_models(admins@),
                None => Seq::empty(),
            },
        }
    }

    /// The bot that is to be started; `None` where it is off. Where no admins
    /// are set there are none.
    pub fn bot_config<'a>(&'a self) -> (config: Option<BotConfig<'a>>)
        ensures
            config is Some <==> self.enabled,
            config matches Some(c) ==> c@ == self.bot(),
    {
        if !self.enabled {
            return None;
        }
        let admins = match &self.admins {
            Some(admins) => {
                let copy = admins.clone();
                assert(crate::matrix::nickname_models(copy@)
                    =~= crate::matrix::nickname_models(admins@));
                copy
            },
            None => {
                let none: Vec<Nickname> = Vec::new();
                assert(crate::matrix::nickname_models(none@) =~= Seq::<Seq<char>>::empty());
                none
            },
        };
        Some(
            BotConfig {
                homeserver: self.homeserver.as_str(),
                username: self.username.as_str(),
                password: self.password.as_str(),
                admins,
            },
        )
    }
}

/// The settings of the service.
#[derive(Debug)]
pub struct Config {
    pub log_level: LogLevel,
    pub matrix: MatrixConfig,
}

/// Where no admins are set, no one gives the bot a command.
pub proof fn law_no_admins_no_commands(
    config: MatrixConfig,
    sender: Seq<char>,
    body: Option<Seq<char>>,
    now: crate::time::Timestamp,
)
    requires
        config.admins is None,
    ensures
        !(crate::matrix::room_step(config.bot().admins, sender, body, now) is Execute),
{
}

/// The bot has the account and the admins of the settings, each in its place.
pub proof fn law_bot_has_the_account_of_the_settings(config: MatrixConfig, i: int)
    ensures
        config.bot().homeserver == config.homeserver@,
        config.bot().username == config.username@,
        config.bot().password == config.password@,
        config.admins is None ==> config.bot().admins.len() == 0,
        config.admins matches Some(admins) ==> {
            &&& config.bot().admins.len() == admins@.len()
            &&& 0 <= i < admins@.len() ==> config.bot().admins[i] == admins@[i]@
        },
{
}

} // verus!
