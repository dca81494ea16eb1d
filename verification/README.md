# AskHuman

A desktop tool that exposes an MCP tool called `ask_human`: AI agents call it to show a
question to the human operator and to wait for the typed reply.

`src/` is the decision core, verified with Verus. It decides; `app/` is the iced window
and the MCP server around it.

| Module       | What it decides |
|--------------|-----------------|
| `app`        | what each message does to the question cards, and what is to be done outside |
| `screen`     | what the window shows and which messages it can send |
| `feed`       | how questions get from the server's queue into the window |
| `slot`       | that an agent is answered at most once, and what the operator is told |
| `mcp_server` | the request behind a question, and what the agent is told in the end |
| `endpoint`   | which port is used and how the endpoint is written |
| `text`       | trimming of answers, decimal notation of ports |
| `channel`    | the outside channels and handles that the core relies on |
| `laws`       | what holds across messages |

The environment variable `ASKHUMAN_PORT` overrides the default port 3000.
