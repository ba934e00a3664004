pub mod diagnostics;
pub mod encapsulated_interface_transport;
pub mod get_comm_event_counter;
pub mod get_comm_event_log;
pub mod mask_write_register;
pub mod read_coils;
pub mod read_discrete_inputs;
pub mod read_exception_status;
pub mod read_fifo_queue;
pub mod read_file_record;
pub mod read_holding_registers;
pub mod read_write_multiple_registers;
pub mod report_server_id;
pub mod write_file_record;
pub mod write_multiple_coils;
pub mod write_multiple_registers;
pub mod write_single_coil;
pub mod write_single_register;
