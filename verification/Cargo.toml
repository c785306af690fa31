[package]
name = "icu_provider_cldr"
version = "0.1.0"
edition = "2021"
publish = false

[dependencies]
icu_provider = { version = "=0.4.0", features = ["provider_serde"] }
icu_locid = "=0.4.0"
tinystr = "=0.4.12"

[dev-dependencies]
icu_plurals = "0.4"
icu_datetime = "0.4"
icu_decimal = "0.4"
icu_locale_canonicalizer = "0.4"
