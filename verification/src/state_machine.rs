pub mod basic_conn_handler;
pub mod conn_handler;
pub mod tcp_server;
