//! The rules of a calendar server: what requests are allowed, how documents
//! are validated, rewritten and rendered, and what background jobs decide.

pub mod access_laws;
pub mod admin;
pub mod alarm_laws;
pub mod alarms;
pub mod attachments;
pub mod audit;
pub mod auth;
pub mod busy_laws;
pub mod calendar_laws;
pub mod calendars;
pub mod capture;
pub mod categories;
pub mod changes;
pub mod config;
pub mod contacts;
pub mod dav;
pub mod dav_laws;
pub mod encoding;
pub mod error;
pub mod event_view;
pub mod events;
pub mod feed;
pub mod format_laws;
pub mod freebusy;
pub mod ics;
pub mod ids;
pub mod item_laws;
pub mod job_laws;
pub mod jobs;
pub mod journals;
pub mod json;
pub mod json_laws;
pub mod login;
pub mod occurrence_laws;
pub mod openapi;
pub mod passkeys;
pub mod places;
pub mod record_laws;
pub mod recurrence;
pub mod reminders;
pub mod rewriting;
pub mod rule_laws;
pub mod rules;
pub mod scheduling;
pub mod scheduling_laws;
pub mod search;
pub mod series;
pub mod shares;
pub mod subscriptions;
pub mod tasks;
pub mod text;
pub mod text_laws;
pub mod time;
pub mod totp;
pub mod url;
pub mod view_laws;
pub mod web;
pub mod web_laws;
pub mod webhooks;
pub mod xml;
