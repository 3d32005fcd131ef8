//! Workers and the decision a node of the chain takes for each message.
pub mod msg_node;
pub mod worker;
