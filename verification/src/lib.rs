pub mod proxy;
pub mod proxy_vite_options;
pub mod supervisor;
pub mod text;
pub mod vite_app_factory;
