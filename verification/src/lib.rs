//! Declarative reconciliation of a container registry.
//!
//! The desired state of a registry is declared in documents: organizations
//! with their robots, teams, repositories, permissions and mirrors. A run
//! converges the registry to it in phases of HTTP actions, compares the
//! permissions that the registry reports with those that are wanted, and
//! revokes the rest.
//!
//! This library decides and sends nothing. It turns the desired state into
//! requests ([`actions`], [`batch`], [`mirror`]), plans the phases of a run
//! ([`plan`]), says after each outcome what is to be sent next ([`engine`]),
//! computes what is to be revoked ([`differ`]), and classifies and reports
//! outcomes ([`executor`], [`report`]). Whoever uses it reads the documents
//! ([`desired`], [`store`]) and the credentials ([`credentials`],
//! [`login`]), performs the requests under a rate limit, and hands the
//! outcomes back.
//!
//! The types of the desired state, of requests and of plans have views,
//! values made of sequences and integers, and each function says what it
//! returns over the views. A JSON document stands for itself; its strings
//! are read by their views.

pub mod actions;
pub mod batch;
pub mod credentials;
pub mod desired;
pub mod differ;
pub mod engine;
pub mod executor;
pub mod json;
pub mod login;
pub mod mirror;
pub mod plan;
pub mod principal;
pub mod report;
pub mod request;
pub mod store;
pub mod views;
pub mod wellformed;
