[package]
name = "undox"
version = "0.1.0"
edition = "2021"
publish = false

[dependencies]
anyhow = "=1.0.104"
async-stream = "=0.3.6"
autumnus = { version = "=0.8.0", default-features = false, features = ["lang-angular", "lang-astro", "lang-bash", "lang-c", "lang-caddy", "lang-clojure", "lang-commonlisp", "lang-cpp", "lang-css", "lang-csv", "lang-dart", "lang-diff", "lang-dockerfile", "lang-eex", "lang-fish", "lang-glimmer", "lang-go", "lang-graphql", "lang-html", "lang-iex", "lang-java", "lang-javascript", "lang-json", "lang-kotlin", "lang-latex", "lang-liquid", "lang-llvm", "lang-lua", "lang-make", "lang-markdown", "lang-markdown-inline", "lang-perl", "lang-python", "lang-ruby", "lang-rust", "lang-scss", "lang-surface", "lang-toml", "lang-tsx", "lang-typescript", "lang-typst", "lang-vim", "lang-vue", "lang-xml", "lang-yaml"] }
axum = "=0.8.9"
clap = { version = "=4.6.7", features = ["derive"] }
config = { version = "=0.15.27", default-features = false, features = ["yaml"] }
futures-util = "=0.3.34"
git2 = { version = "=0.21.0", default-features = false }
indoc = "=2.0.8"
notify = "=8.2.1"
notify-debouncer-full = "=0.7.0"
open = "=5.4.5"
pulldown-cmark = "=0.13.5"
serde = { version = "=1.0.229", features = ["derive"] }
serde_json = "=1.0.154"
serde_yaml = "=0.9.34"
tera = "=1.20.1"
thiserror = "=2.0.21"
tokio = { version = "=1.54.1", features = ["full"] }
tower-http = { version = "=0.7.1", features = ["fs"] }
