[package]
name = "room_reservation"
version = "0.1.0"
edition = "2021"
publish = false

[dependencies]
argon2 = { version = "0.5", features = ["std"] }
bson = "2"
chrono = { version = "0.4", features = ["serde"] }
image = { version = "0.24", default-features = false, features = ["jpeg", "png"] }
mongodb = "2"
rocket = { version = "0.5", features = ["json"] }
rocket_db_pools = { version = "*", features = ["mongodb"] }
rocket-multipart-form-data = "*"
serde = { version = "1", features = ["derive"] }
