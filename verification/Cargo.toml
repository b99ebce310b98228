[package]
name = "mongodb_gridfs"
version = "0.1.0"
edition = "2021"
publish = false

[dependencies]
bson = "2"
chrono = "0.4"
futures = "0.3"
md-5 = "0.10"
mongodb = "2"
