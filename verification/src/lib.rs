//! The logic of a proxy between Mumble web clients and a Mumble server.
//!
//! A web client that asks for WebRTC gets the voice of the other users as RTP packets over a media
//! channel of its own, secured by DTLS and found by ICE; the server keeps speaking plain Mumble.
//! The proxy gives each user an RTP source, turns Mumble's voice packets into RTP packets and
//! back, tells the client who is talking, and passes everything else on as it is.
//!
//! - [`connection`]: a client's connection, which takes events and asks for actions.
//! - [`model`], [`schedule`]: what a connection is and does, and in which order.
//! - [`behaviour`]: what it does about each thing that it is told.
//! - [`laws`]: what holds of every connection, over one event and over the whole of its life.
//! - [`user`]: the users on the server and their voice.
//! - [`messages`], [`events`]: what passes through a connection.
//! - [`media`], [`candidate`], [`config`]: RTP packets, ICE candidates, and the operator's
//!   settings.
//! - [`identity`], [`certificate`]: the key and the certificate, and how they are made.
//!
//! Nothing in here does I/O.
pub mod behaviour;
pub mod candidate;
pub mod certificate;
pub mod config;
pub mod connection;
pub mod events;
pub mod identity;
pub mod laws;
pub mod media;
pub mod messages;
pub mod model;
pub mod schedule;
pub mod user;
