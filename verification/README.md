# titan_core

The Titan control plane: a transaction monitor that takes USDC/USDT transfers
into a temporary safe-wallet hold, flags the ones an operator must review, and
records operator-approved releases; redundant monitor agents with failover;
and the command screening and configuration parsing of the Hunter Discord relay.

The library in `src/` is written in Verus and verified:

- `ai_agent` — monitor agents and their health record.
- `vulnerability` — findings and their severity.
- `attack_security` — the Discord command inspector and the transfer detector.
- `transaction`, `session`, `discord`, `hunter` — the data the control plane exchanges.
- `monitoring` — the monitor service, its state as mathematical values, the
  state transition of each operation, and the laws those transitions keep.
- `keyed` — records stored under a text key (one agent per name, one
  transaction per id).
- `control` — bearer-token authorization, constant-time token comparison,
  environment values, and the answers to refused commands.
- `text` — the string functions the rest is built on (trim, split, ASCII case,
  decimal notation and parsing), each proved against its definition.
- `clock` — the system clock.

`app/` is the HTTP server around the library (axum, tokio, serde), and
`tests/` exercises the library on concrete values.

## Endpoints

- `GET /health` — liveness and the number of healthy agents.
- `GET /ready` — 200 when a safe wallet is configured and enough agents are healthy, else 503.
- `GET /status` — queue, hold, release and readiness counts.
- `GET /alerts` — alerts waiting for operator review.
- `GET /transactions/held` — transfers on hold.
- `POST /transactions/intake` — authorized intake (bearer `DISCORD_INGEST_TOKEN`).
- `POST /transactions/{transaction_id}/release` — operator release (bearer `OPERATOR_API_TOKEN`).
- `POST /agents/heartbeat` — refreshes an agent.
- `POST /agents/{agent_name}/failure` — records an agent failure (bearer `OPERATOR_API_TOKEN`).

## Environment

`SAFE_WALLET_ADDRESS`, `APPROVED_DESTINATIONS` (comma-separated),
`MINIMUM_ACTIVE_AGENTS` (default 2), `PORT` (default 8080),
`OPERATOR_API_TOKEN`, `DISCORD_INGEST_TOKEN`, `DISCORD_BOT_TOKEN`,
`HUNTER_IDENTITY`, `MONITOR_STATE_PATH`, `STRICT_STARTUP`.
